//! What window rules match, and what the rules that match one window come to.
use vstd::prelude::*;

use crate::config::colors;
use crate::config::colors::Rgba;
use crate::config::decoration::DecorationMode;
use crate::config::numbers;
use crate::config::numbers::Real;
use crate::config::parse;
use crate::config::patterns;
use crate::config::types::{KeyCombo, ModKey};
use crate::config::window_rules;
use crate::config::window_rules::{
    AppliedWindowRuleOf, PassKeysFile, PassKeysOf, WindowRuleFile, WindowRuleOf,
};
use crate::text;

verus! {

/// A window rule.
pub type Rule = WindowRuleOf<Seq<char>, Seq<KeyCombo>>;

/// What rules come to for a window.
pub type Applied = AppliedWindowRuleOf<Seq<char>, Seq<KeyCombo>>;

// ── Patterns ─────────────────────────────────────────────────────────

/// A glob without stars matches itself and nothing else.
pub proof fn lemma_literal_glob(p: Seq<char>, s: Seq<char>)
    requires
        forall|i: int| 0 <= i < p.len() ==> #[trigger] p[i] != '*',
    ensures
        patterns::glob(p, s) <==> p == s,
    decreases p.len(),
{
    if p.len() > 0 {
        assert(p[0] != '*');
        let (q, t) = (p.drop_first(), s.drop_first());
        assert forall|i: int| 0 <= i < q.len() implies #[trigger] q[i] != '*' by {
            assert(q[i] == p[i + 1]);
        }
        if s.len() > 0 {
            lemma_literal_glob(q, t);
            if p[0] == s[0] && q == t {
                assert(p =~= seq![p[0]] + q);
                assert(s =~= seq![s[0]] + t);
            }
        }
    } else {
        if s.len() == 0 {
            assert(p =~= s);
        }
    }
}

/// A star matches every text.
pub proof fn lemma_star_matches_all(s: Seq<char>)
    ensures
        patterns::glob(seq!['*'], s),
    decreases s.len(),
{
    let p = seq!['*'];
    assert(p.drop_first() =~= Seq::empty());
    if s.len() > 0 {
        lemma_star_matches_all(s.drop_first());
    } else {
        assert(patterns::glob(p.drop_first(), s));
    }
}

/// Two globs in a row match a text if and only if it can be cut so that the first
/// matches what is before the cut and the second what is behind it.
pub proof fn lemma_globs_in_a_row(p: Seq<char>, q: Seq<char>, s: Seq<char>)
    ensures
        patterns::glob(p + q, s) <==> exists|k: int|
            0 <= k <= s.len() && #[trigger] patterns::glob(p, s.take(k)) && patterns::glob(
                q,
                s.skip(k),
            ),
    decreases p.len() + s.len(),
{
    let r = p + q;
    if p.len() == 0 {
        assert(r =~= q);
        assert(s.take(0) =~= Seq::empty());
        assert(s.skip(0) =~= s);
        assert(patterns::glob(p, s.take(0)));
    } else {
        let rest = p.drop_first();
        assert(r.drop_first() =~= rest + q);
        assert(r[0] == p[0]);
        if p[0] == '*' {
            lemma_globs_in_a_row(rest, q, s);
            if s.len() > 0 {
                lemma_globs_in_a_row(p, q, s.drop_first());
            }
            if patterns::glob(r, s) {
                if patterns::glob(rest + q, s) {
                    let k = choose|k: int|
                        0 <= k <= s.len() && #[trigger] patterns::glob(rest, s.take(k))
                            && patterns::glob(q, s.skip(k));
                    assert(patterns::glob(p, s.take(k)));
                } else {
                    let t = s.drop_first();
                    let k = choose|k: int|
                        0 <= k <= t.len() && #[trigger] patterns::glob(p, t.take(k))
                            && patterns::glob(q, t.skip(k));
                    assert(s.take(k + 1).drop_first() =~= t.take(k));
                    assert(s.skip(k + 1) =~= t.skip(k));
                    assert(patterns::glob(p, s.take(k + 1)));
                }
            }
            if exists|k: int|
                0 <= k <= s.len() && #[trigger] patterns::glob(p, s.take(k)) && patterns::glob(
                    q,
                    s.skip(k),
                ) {
                let k = choose|k: int|
                    0 <= k <= s.len() && #[trigger] patterns::glob(p, s.take(k))
                        && patterns::glob(q, s.skip(k));
                if patterns::glob(rest, s.take(k)) {
                } else {
                    let t = s.drop_first();
                    assert(s.take(k).drop_first() =~= t.take(k - 1));
                    assert(s.skip(k) =~= t.skip(k - 1));
                    assert(patterns::glob(p, t.take(k - 1)));
                }
            }
        } else {
            if s.len() > 0 {
                let t = s.drop_first();
                lemma_globs_in_a_row(rest, q, t);
                if patterns::glob(r, s) {
                    let k = choose|k: int|
                        0 <= k <= t.len() && #[trigger] patterns::glob(rest, t.take(k))
                            && patterns::glob(q, t.skip(k));
                    assert(s.take(k + 1).drop_first() =~= t.take(k));
                    assert(s.take(k + 1)[0] == s[0]);
                    assert(s.skip(k + 1) =~= t.skip(k));
                    assert(patterns::glob(p, s.take(k + 1)));
                }
                if exists|k: int|
                    0 <= k <= s.len() && #[trigger] patterns::glob(p, s.take(k))
                        && patterns::glob(q, s.skip(k)) {
                    let k = choose|k: int|
                        0 <= k <= s.len() && #[trigger] patterns::glob(p, s.take(k))
                            && patterns::glob(q, s.skip(k));
                    assert(k > 0);
                    assert(s.take(k)[0] == s[0]);
                    assert(s.take(k).drop_first() =~= t.take(k - 1));
                    assert(s.skip(k) =~= t.skip(k - 1));
                    assert(patterns::glob(rest, t.take(k - 1)));
                }
            } else {
                assert forall|k: int| 0 <= k <= s.len() implies !#[trigger] patterns::glob(
                    p,
                    s.take(k),
                ) by {
                    assert(s.take(k).len() == 0);
                }
            }
        }
    }
}

/// A text between slashes that is a regular expression matches what that
/// expression is found in; any other text is a glob.
pub proof fn lemma_written_pattern(inner: Seq<char>, s: Seq<char>, t: Seq<char>)
    ensures
        ({
            let between = seq!['/'] + inner + seq!['/'];
            &&& patterns::regex_error(inner) is None ==> (patterns::pattern_matches(
                patterns::pattern_of(between),
                t,
            ) <==> patterns::regex_match(inner, t) == Some(true))
            &&& patterns::regex_error(inner) is Some ==> (patterns::pattern_matches(
                patterns::pattern_of(between),
                t,
            ) <==> patterns::glob(between, t))
        }),
        s.len() < 2 || s[0] != '/' || s.last() != '/' ==> (patterns::pattern_matches(
            patterns::pattern_of(s),
            t,
        ) <==> patterns::glob(s, t)),
{
    let between = seq!['/'] + inner + seq!['/'];
    assert(patterns::unslashed(between) =~= inner);
    assert(between[0] == '/' && between.last() == '/');
}

// ── Matching ─────────────────────────────────────────────────────────

/// A rule matches a window if and only if each criterion that it sets matches:
/// one without an app id goes by the title alone, one without a title by the app
/// id alone, and one with both by both.
pub proof fn lemma_rule_goes_by_what_it_sets(r: Rule, app_id: Seq<char>, title: Seq<char>)
    ensures
        match (r.app_id, r.title) {
            (None, None) => window_rules::rule_matches(r, app_id, title),
            (None, Some(t)) => window_rules::rule_matches(r, app_id, title)
                <==> patterns::pattern_matches(t, title),
            (Some(a), None) => window_rules::rule_matches(r, app_id, title)
                <==> patterns::pattern_matches(a, app_id),
            (Some(a), Some(t)) => window_rules::rule_matches(r, app_id, title)
                <==> patterns::pattern_matches(a, app_id) && patterns::pattern_matches(t, title),
        },
{
}

/// Do the criteria of a rule hold of a window?
pub open spec fn applies(r: Rule, app_id: Seq<char>, title: Seq<char>) -> bool {
    let by_app = match r.app_id {
        Some(p) => patterns::pattern_matches(p, app_id),
        None => true,
    };
    let by_title = match r.title {
        Some(p) => patterns::pattern_matches(p, title),
        None => true,
    };
    by_app && by_title
}

/// Does a rule count for a window? For one instance of a layer, a rule with a
/// position counts only if it is that instance's.
pub open spec fn counts(
    rules: Seq<Rule>,
    app_id: Seq<char>,
    title: Seq<char>,
    instance: Option<int>,
    i: int,
) -> bool {
    applies(rules[i], app_id, title) && (instance is None || rules[i].position is None || instance
        == Some(i))
}

/// The first rule that matches is the first one whose criteria hold.
pub proof fn lemma_first_match_is_first(
    rules: Seq<Rule>,
    app_id: Seq<char>,
    title: Seq<char>,
    i: int,
)
    requires
        0 <= i <= rules.len(),
    ensures
        ({
            let f = window_rules::first_match(rules, app_id, title, i);
            &&& i <= f <= rules.len()
            &&& f < rules.len() ==> applies(rules[f], app_id, title)
            &&& forall|j: int| i <= j < f ==> !applies(#[trigger] rules[j], app_id, title)
        }),
    decreases rules.len() - i,
{
    if i < rules.len() {
        lemma_rule_goes_by_what_it_sets(rules[i], app_id, title);
        lemma_first_match_is_first(rules, app_id, title, i + 1);
    }
}

/// How many rules with a position match, among those before an index.
pub open spec fn positioned_before(
    rules: Seq<Rule>,
    app_id: Seq<char>,
    title: Seq<char>,
    n: int,
) -> nat
    decreases n,
{
    if n <= 0 {
        0
    } else {
        positioned_before(rules, app_id, title, n - 1) + (if rules[n - 1].position is Some
            && applies(rules[n - 1], app_id, title) {
            1nat
        } else {
            0
        })
    }
}

proof fn lemma_nth_from(
    rules: Seq<Rule>,
    app_id: Seq<char>,
    title: Seq<char>,
    n: nat,
    i: int,
)
    requires
        0 <= i <= rules.len(),
    ensures
        ({
            let f = window_rules::nth_positioned(rules, app_id, title, n, i);
            &&& i <= f <= rules.len()
            &&& f < rules.len() ==> rules[f].position is Some && applies(rules[f], app_id, title)
                && positioned_before(rules, app_id, title, f) == positioned_before(
                rules,
                app_id,
                title,
                i,
            ) + n
            &&& f == rules.len() ==> positioned_before(rules, app_id, title, f)
                <= positioned_before(rules, app_id, title, i) + n
        }),
    decreases rules.len() - i,
{
    if i < rules.len() {
        lemma_rule_goes_by_what_it_sets(rules[i], app_id, title);
        if rules[i].position is Some && applies(rules[i], app_id, title) {
            if n > 0 {
                lemma_nth_from(rules, app_id, title, (n - 1) as nat, i + 1);
            }
        } else {
            lemma_nth_from(rules, app_id, title, n, i + 1);
        }
    }
}

/// The `n`th rule with a position that matches is one, and exactly `n` such rules
/// come before it; where there is none, at most `n` match at all.
pub proof fn lemma_nth_positioned_rule(
    rules: Seq<Rule>,
    app_id: Seq<char>,
    title: Seq<char>,
    n: nat,
)
    ensures
        ({
            let f = window_rules::nth_positioned(rules, app_id, title, n, 0);
            &&& 0 <= f <= rules.len()
            &&& f < rules.len() ==> rules[f].position is Some && applies(rules[f], app_id, title)
                && positioned_before(rules, app_id, title, f) == n
            &&& f == rules.len() ==> positioned_before(rules, app_id, title, f) <= n
        }),
{
    lemma_nth_from(rules, app_id, title, n, 0);
}

// ── Merging ──────────────────────────────────────────────────────────

/// Is `value` what the last of the rules that count and set it says, and nothing
/// where none does?
pub open spec fn set_by_last<T>(
    value: Option<T>,
    rules: Seq<Rule>,
    app_id: Seq<char>,
    title: Seq<char>,
    instance: Option<int>,
    n: int,
    part: spec_fn(Rule) -> Option<T>,
) -> bool {
    match value {
        Some(_) => exists|i: int|
            0 <= i < n && #[trigger] counts(rules, app_id, title, instance, i) && part(rules[i])
                == value && forall|j: int|
                i < j < n && #[trigger] counts(rules, app_id, title, instance, j) ==> part(
                    rules[j],
                ) is None,
        None => forall|i: int|
            0 <= i < n && #[trigger] counts(rules, app_id, title, instance, i) ==> part(rules[i])
                is None,
    }
}

/// Does some rule that counts switch a flag on?
pub open spec fn switched_on(
    rules: Seq<Rule>,
    app_id: Seq<char>,
    title: Seq<char>,
    instance: Option<int>,
    n: int,
    flag: spec_fn(Rule) -> bool,
) -> bool {
    exists|i: int|
        0 <= i < n && #[trigger] counts(rules, app_id, title, instance, i) && flag(rules[i])
}

proof fn lemma_last_grows<T>(
    before: Option<T>,
    after: Option<T>,
    rules: Seq<Rule>,
    app_id: Seq<char>,
    title: Seq<char>,
    instance: Option<int>,
    n: int,
    part: spec_fn(Rule) -> Option<T>,
)
    requires
        0 < n <= rules.len(),
        set_by_last(before, rules, app_id, title, instance, n - 1, part),
        counts(rules, app_id, title, instance, n - 1) ==> after == (if part(rules[n - 1]) is Some {
            part(rules[n - 1])
        } else {
            before
        }),
        !counts(rules, app_id, title, instance, n - 1) ==> after == before,
    ensures
        set_by_last(after, rules, app_id, title, instance, n, part),
{
    if counts(rules, app_id, title, instance, n - 1) && part(rules[n - 1]) is Some {
        assert(counts(rules, app_id, title, instance, n - 1) && part(rules[n - 1]) == after);
    } else if before is Some {
        let i = choose|i: int|
            0 <= i < n - 1 && #[trigger] counts(rules, app_id, title, instance, i) && part(
                rules[i],
            ) == before && forall|j: int|
                i < j < n - 1 && #[trigger] counts(rules, app_id, title, instance, j) ==> part(
                    rules[j],
                ) is None;
        assert(counts(rules, app_id, title, instance, i));
    }
}

proof fn lemma_switch_grows(
    rules: Seq<Rule>,
    app_id: Seq<char>,
    title: Seq<char>,
    instance: Option<int>,
    n: int,
    flag: spec_fn(Rule) -> bool,
)
    requires
        0 < n <= rules.len(),
    ensures
        switched_on(rules, app_id, title, instance, n, flag) == (switched_on(
            rules,
            app_id,
            title,
            instance,
            n - 1,
            flag,
        ) || (counts(rules, app_id, title, instance, n - 1) && flag(rules[n - 1]))),
{
    if switched_on(rules, app_id, title, instance, n - 1, flag) {
        let i = choose|i: int|
            0 <= i < n - 1 && #[trigger] counts(rules, app_id, title, instance, i) && flag(
                rules[i],
            );
        assert(counts(rules, app_id, title, instance, i) && flag(rules[i]));
    }
    if switched_on(rules, app_id, title, instance, n, flag) {
        let i = choose|i: int|
            0 <= i < n && #[trigger] counts(rules, app_id, title, instance, i) && flag(rules[i]);
        assert(i < n - 1 || i == n - 1);
    }
}

/// The parts of what rules come to that a later rule overrides.
pub open spec fn overridden(
    a: Applied,
    rules: Seq<Rule>,
    app_id: Seq<char>,
    title: Seq<char>,
    instance: Option<int>,
    n: int,
) -> bool {
    &&& set_by_last(a.position, rules, app_id, title, instance, n, |r: Rule| r.position)
    &&& set_by_last(a.size, rules, app_id, title, instance, n, |r: Rule| r.size)
    &&& set_by_last(a.fullscreen, rules, app_id, title, instance, n, |r: Rule| r.fullscreen)
    &&& set_by_last(a.focus_on_open, rules, app_id, title, instance, n, |r: Rule| r.focus_on_open)
    &&& set_by_last(
        a.suspend_on_close,
        rules,
        app_id,
        title,
        instance,
        n,
        |r: Rule| r.suspend_on_close,
    )
    &&& set_by_last(a.decoration, rules, app_id, title, instance, n, |r: Rule| r.decoration)
    &&& set_by_last(a.opacity, rules, app_id, title, instance, n, |r: Rule| r.opacity)
    &&& set_by_last(a.border_width, rules, app_id, title, instance, n, |r: Rule| r.border_width)
    &&& set_by_last(a.border_color, rules, app_id, title, instance, n, |r: Rule| r.border_color)
    &&& set_by_last(
        a.border_color_focused,
        rules,
        app_id,
        title,
        instance,
        n,
        |r: Rule| r.border_color_focused,
    )
    &&& set_by_last(a.corner_radius, rules, app_id, title, instance, n, |r: Rule| r.corner_radius)
    &&& set_by_last(a.shadow, rules, app_id, title, instance, n, |r: Rule| r.shadow)
    &&& set_by_last(a.output, rules, app_id, title, instance, n, |r: Rule| r.output)
    &&& set_by_last(a.layer_order, rules, app_id, title, instance, n, |r: Rule| r.layer_order)
}

/// The parts of what rules come to that stay on once a rule switches them on.
pub open spec fn accumulated(
    a: Applied,
    rules: Seq<Rule>,
    app_id: Seq<char>,
    title: Seq<char>,
    instance: Option<int>,
    n: int,
) -> bool {
    &&& a.widget == switched_on(rules, app_id, title, instance, n, |r: Rule| r.widget)
    &&& a.pinned_to_screen == switched_on(
        rules,
        app_id,
        title,
        instance,
        n,
        |r: Rule| r.pinned_to_screen,
    )
    &&& a.preserve_aspect_ratio == switched_on(
        rules,
        app_id,
        title,
        instance,
        n,
        |r: Rule| r.preserve_aspect_ratio,
    )
    &&& a.blur == switched_on(rules, app_id, title, instance, n, |r: Rule| r.blur)
    &&& a.pass_keys is All == switched_on(
        rules,
        app_id,
        title,
        instance,
        n,
        |r: Rule| r.pass_keys is All,
    )
    &&& a.pass_keys is Off ==> !switched_on(
        rules,
        app_id,
        title,
        instance,
        n,
        |r: Rule| !(r.pass_keys is Off),
    )
}

proof fn lemma_no_rule(
    rules: Seq<Rule>,
    app_id: Seq<char>,
    title: Seq<char>,
    instance: Option<int>,
    n: int,
)
    requires
        forall|i: int| 0 <= i < n ==> !#[trigger] counts(rules, app_id, title, instance, i),
    ensures
        forall|part: spec_fn(Rule) -> Option<(i32, i32)>| #[trigger]
            set_by_last(None, rules, app_id, title, instance, n, part),
        forall|part: spec_fn(Rule) -> Option<bool>| #[trigger]
            set_by_last(None, rules, app_id, title, instance, n, part),
        forall|part: spec_fn(Rule) -> Option<i32>| #[trigger]
            set_by_last(None, rules, app_id, title, instance, n, part),
        forall|part: spec_fn(Rule) -> Option<Real>| #[trigger]
            set_by_last(None, rules, app_id, title, instance, n, part),
        forall|part: spec_fn(Rule) -> Option<Rgba>| #[trigger]
            set_by_last(None, rules, app_id, title, instance, n, part),
        forall|part: spec_fn(Rule) -> Option<Seq<char>>| #[trigger]
            set_by_last(None, rules, app_id, title, instance, n, part),
        forall|part: spec_fn(Rule) -> Option<DecorationMode>| #[trigger]
            set_by_last(None, rules, app_id, title, instance, n, part),
        forall|flag: spec_fn(Rule) -> bool|
            !#[trigger] switched_on(rules, app_id, title, instance, n, flag),
{
}

/// What rules come to for a window: nothing where none counts; else each part is
/// what the last rule that sets it says, and a flag is on if and only if some
/// rule switches it on. Keys pass to the window if some rule lets them, all of
/// them if some rule lets all.
pub proof fn lemma_what_rules_come_to(
    rules: Seq<Rule>,
    app_id: Seq<char>,
    title: Seq<char>,
    instance: Option<int>,
    n: int,
)
    requires
        0 <= n <= rules.len(),
    ensures
        ({
            let a = window_rules::applied_upto(rules, app_id, title, instance, n);
            &&& a is Some <==> exists|i: int|
                0 <= i < n && #[trigger] counts(rules, app_id, title, instance, i)
            &&& a matches Some(x) ==> overridden(x, rules, app_id, title, instance, n)
                && accumulated(x, rules, app_id, title, instance, n)
        }),
    decreases n,
{
    if n > 0 {
        let before = window_rules::applied_upto(rules, app_id, title, instance, n - 1);
        let after = window_rules::applied_upto(rules, app_id, title, instance, n);
        let last = rules[n - 1];
        lemma_what_rules_come_to(rules, app_id, title, instance, n - 1);
        lemma_rule_goes_by_what_it_sets(last, app_id, title);
        assert(counts(rules, app_id, title, instance, n - 1) == (window_rules::rule_matches(
            last,
            app_id,
            title,
        ) && window_rules::takes_part(rules, n - 1, instance)));
        if before is Some {
            let i = choose|i: int|
                0 <= i < n - 1 && #[trigger] counts(rules, app_id, title, instance, i);
            assert(counts(rules, app_id, title, instance, i));
        }
        if let Some(x) = after {
            lemma_merge_step(before, x, rules, app_id, title, instance, n);
        }
    }
}

proof fn lemma_merge_step(
    before: Option<Applied>,
    x: Applied,
    rules: Seq<Rule>,
    app_id: Seq<char>,
    title: Seq<char>,
    instance: Option<int>,
    n: int,
)
    requires
        0 < n <= rules.len(),
        before is None ==> forall|i: int|
            0 <= i < n - 1 ==> !#[trigger] counts(rules, app_id, title, instance, i),
        before matches Some(b) ==> overridden(b, rules, app_id, title, instance, n - 1)
            && accumulated(b, rules, app_id, title, instance, n - 1),
        counts(rules, app_id, title, instance, n - 1) ==> x == (match before {
            None => window_rules::applied_from(rules[n - 1]),
            Some(b) => window_rules::applied_merge(b, rules[n - 1]),
        }),
        !counts(rules, app_id, title, instance, n - 1) ==> before == Some(x),
    ensures
        overridden(x, rules, app_id, title, instance, n),
        accumulated(x, rules, app_id, title, instance, n),
{
    let position = |r: Rule| r.position;
    let size = |r: Rule| r.size;
    let fullscreen = |r: Rule| r.fullscreen;
    let focus_on_open = |r: Rule| r.focus_on_open;
    let suspend_on_close = |r: Rule| r.suspend_on_close;
    let decoration = |r: Rule| r.decoration;
    let opacity = |r: Rule| r.opacity;
    let border_width = |r: Rule| r.border_width;
    let border_color = |r: Rule| r.border_color;
    let border_color_focused = |r: Rule| r.border_color_focused;
    let corner_radius = |r: Rule| r.corner_radius;
    let shadow = |r: Rule| r.shadow;
    let output = |r: Rule| r.output;
    let layer_order = |r: Rule| r.layer_order;
    if before is None {
        lemma_no_rule(rules, app_id, title, instance, n - 1);
    }
    let b = match before {
        Some(b) => b,
        None => Applied {
            position: None,
            size: None,
            fullscreen: None,
            focus_on_open: None,
            widget: false,
            pinned_to_screen: false,
            suspend_on_close: None,
            preserve_aspect_ratio: false,
            decoration: None,
            blur: false,
            opacity: None,
            pass_keys: PassKeysOf::Off,
            border_width: None,
            border_color: None,
            border_color_focused: None,
            corner_radius: None,
            shadow: None,
            output: None,
            layer_order: None,
        },
    };
    lemma_last_grows(b.position, x.position, rules, app_id, title, instance, n, position);
    lemma_last_grows(b.size, x.size, rules, app_id, title, instance, n, size);
    lemma_last_grows(b.fullscreen, x.fullscreen, rules, app_id, title, instance, n, fullscreen);
    lemma_last_grows(
        b.focus_on_open,
        x.focus_on_open,
        rules,
        app_id,
        title,
        instance,
        n,
        focus_on_open,
    );
    lemma_last_grows(
        b.suspend_on_close,
        x.suspend_on_close,
        rules,
        app_id,
        title,
        instance,
        n,
        suspend_on_close,
    );
    lemma_last_grows(b.decoration, x.decoration, rules, app_id, title, instance, n, decoration);
    lemma_last_grows(b.opacity, x.opacity, rules, app_id, title, instance, n, opacity);
    lemma_last_grows(
        b.border_width,
        x.border_width,
        rules,
        app_id,
        title,
        instance,
        n,
        border_width,
    );
    lemma_last_grows(
        b.border_color,
        x.border_color,
        rules,
        app_id,
        title,
        instance,
        n,
        border_color,
    );
    lemma_last_grows(
        b.border_color_focused,
        x.border_color_focused,
        rules,
        app_id,
        title,
        instance,
        n,
        border_color_focused,
    );
    lemma_last_grows(
        b.corner_radius,
        x.corner_radius,
        rules,
        app_id,
        title,
        instance,
        n,
        corner_radius,
    );
    lemma_last_grows(b.shadow, x.shadow, rules, app_id, title, instance, n, shadow);
    lemma_last_grows(b.output, x.output, rules, app_id, title, instance, n, output);
    lemma_last_grows(b.layer_order, x.layer_order, rules, app_id, title, instance, n, layer_order);
    let widget = |r: Rule| r.widget;
    let pinned = |r: Rule| r.pinned_to_screen;
    let ratio = |r: Rule| r.preserve_aspect_ratio;
    let blur = |r: Rule| r.blur;
    let all_keys = |r: Rule| r.pass_keys is All;
    let some_keys = |r: Rule| !(r.pass_keys is Off);
    lemma_switch_grows(rules, app_id, title, instance, n, widget);
    lemma_switch_grows(rules, app_id, title, instance, n, pinned);
    lemma_switch_grows(rules, app_id, title, instance, n, ratio);
    lemma_switch_grows(rules, app_id, title, instance, n, blur);
    lemma_switch_grows(rules, app_id, title, instance, n, all_keys);
    lemma_switch_grows(rules, app_id, title, instance, n, some_keys);
}

/// Keys that several rules let pass are those of each of them, each once.
pub proof fn lemma_passed_keys_join(a: Seq<KeyCombo>, b: Seq<KeyCombo>, k: KeyCombo)
    ensures
        window_rules::with_combos(a, b).contains(k) <==> a.contains(k) || b.contains(k),
        window_rules::with_combos(a, b).take(a.len() as int) == a,
        a.len() <= window_rules::with_combos(a, b).len() <= a.len() + b.len(),
        a.no_duplicates() ==> window_rules::with_combos(a, b).no_duplicates(),
    decreases b.len(),
{
    if b.len() > 0 {
        let front = b.drop_last();
        let before = window_rules::with_combos(a, front);
        lemma_passed_keys_join(a, front, k);
        assert(b =~= front.push(b.last()));
        if front.contains(k) {
            let i = choose|i: int| 0 <= i < front.len() && front[i] == k;
            assert(b[i] == k);
        }
        if b.contains(k) && !front.contains(k) {
            let i = choose|i: int| 0 <= i < b.len() && b[i] == k;
            assert(i == b.len() - 1) by {
                if i < front.len() {
                    assert(front[i] == k);
                }
            }
        }
        assert(b[b.len() - 1] == b.last());
        if before.contains(b.last()) {
        } else {
            let after = before.push(b.last());
            assert(after.take(a.len() as int) =~= before.take(a.len() as int));
            if before.contains(k) {
                let i = choose|i: int| 0 <= i < before.len() && before[i] == k;
                assert(after[i] == k);
            }
            assert(after[before.len() as int] == b.last());
            if after.contains(k) && !before.contains(k) {
                let i = choose|i: int| 0 <= i < after.len() && after[i] == k;
                assert(i == before.len()) by {
                    if i < before.len() {
                        assert(before[i] == k);
                    }
                }
            }
        }
    } else {
        assert(a.take(a.len() as int) =~= a);
    }
}

/// What two rules let pass: everything where one of them does, nothing where
/// neither lets anything, else the keys of both.
pub proof fn lemma_passed_keys_merge(
    a: PassKeysOf<Seq<KeyCombo>>,
    b: PassKeysOf<Seq<KeyCombo>>,
    k: KeyCombo,
)
    ensures
        ({
            let passes = |p: PassKeysOf<Seq<KeyCombo>>|
                match p {
                    PassKeysOf::Off => false,
                    PassKeysOf::All => true,
                    PassKeysOf::Only(v) => v.contains(k),
                };
            passes(window_rules::merged_keys(a, b)) == (passes(a) || passes(b))
        }),
{
    if let PassKeysOf::Only(x) = a {
        if let PassKeysOf::Only(y) = b {
            lemma_passed_keys_join(x, y, k);
        }
    }
}

// ── Entries ──────────────────────────────────────────────────────────

/// The mode that a rule names.
pub open spec fn mode_name(m: DecorationMode) -> Seq<char> {
    match m {
        DecorationMode::Client => "client"@,
        DecorationMode::Server => "server"@,
        DecorationMode::Minimal => "minimal"@,
        DecorationMode::Bare => "none"@,
    }
}

/// A rule sets a decoration if and only if its text is the name of one.
pub proof fn lemma_rule_modes_go_by_their_names(s: String, m: DecorationMode)
    ensures
        window_rules::rule_mode_of(Some(s)) == Some(m) <==> s@ == mode_name(m),
        window_rules::rule_mode_of(None) is None,
{
    reveal_strlit("client");
    reveal_strlit("server");
    reveal_strlit("minimal");
    reveal_strlit("none");
    assert("client"@.len() == 6 && "server"@.len() == 6 && "minimal"@.len() == 7 && "none"@.len()
        == 4 && "client"@[0] == 'c' && "server"@[0] == 's');
}

/// An entry is a rule if and only if it sets an app id or a title, and the rule
/// has the patterns, the switches and the values of the entry: a size only where
/// it is one, an opacity held between zero and one, and lengths that are not
/// negative.
pub proof fn lemma_rule_of_an_entry(
    e: WindowRuleFile,
    mod_key: ModKey,
    table: Seq<(Seq<char>, u32)>,
)
    ensures
        window_rules::window_rule_of(e, mod_key, table) is Some <==> e.app_id is Some || e.title
            is Some,
        window_rules::window_rule_of(e, mod_key, table) matches Some(r) ==> {
            &&& match e.app_id {
                Some(s) => r.app_id == Some(patterns::pattern_of(s@)),
                None => r.app_id is None,
            }
            &&& match e.title {
                Some(s) => r.title == Some(patterns::pattern_of(s@)),
                None => r.title is None,
            }
            &&& r.position == e.position
            &&& r.fullscreen == e.fullscreen
            &&& r.focus_on_open == e.focus_on_open
            &&& r.widget == e.widget
            &&& r.pinned_to_screen == e.pinned_to_screen
            &&& r.suspend_on_close == e.suspend_on_close
            &&& r.preserve_aspect_ratio == e.preserve_aspect_ratio
            &&& r.shadow == e.shadow
            &&& r.layer_order == e.layer_order
            &&& r.blur == (e.blur == Some(true))
            &&& match e.output {
                Some(s) => r.output == Some(s@),
                None => r.output is None,
            }
            &&& match e.size {
                Some((w, h)) => r.size == (if w > 0 && h > 0 {
                    Some((w, h))
                } else {
                    None
                }),
                None => r.size is None,
            }
            &&& match e.border_width {
                Some(n) => r.border_width == Some(
                    if n < 0 {
                        0i32
                    } else {
                        n
                    },
                ),
                None => r.border_width is None,
            }
            &&& match e.corner_radius {
                Some(n) => r.corner_radius == Some(
                    if n < 0 {
                        0i32
                    } else {
                        n
                    },
                ),
                None => r.corner_radius is None,
            }
            &&& match e.border_color {
                Some(s) => r.border_color == colors::color_of(s@),
                None => r.border_color is None,
            }
            &&& match e.border_color_focused {
                Some(s) => r.border_color_focused == colors::color_of(s@),
                None => r.border_color_focused is None,
            }
            &&& match e.decoration {
                Some(s) => r.decoration matches Some(m) ==> s@ == mode_name(m),
                None => r.decoration is None,
            }
            &&& match e.opacity {
                Some(n) => r.opacity == Some(
                    if numbers::real_rank(n.value) is None || numbers::real_rank(n.value)->0 < 0 {
                        Real { bits: 0 }
                    } else if numbers::real_rank(n.value)->0 > 0x3ff0_0000_0000_0000 {
                        Real { bits: 0x3ff0_0000_0000_0000 }
                    } else {
                        n.value
                    },
                ),
                None => r.opacity is None,
            }
            &&& match e.pass_keys {
                None => r.pass_keys is Off,
                Some(PassKeysFile::Bool(b)) => if b {
                    r.pass_keys is All
                } else {
                    r.pass_keys is Off
                },
                Some(PassKeysFile::Keys(v)) => {
                    let keys = window_rules::pass_combos(text::string_views(v@), mod_key, table);
                    match r.pass_keys {
                        PassKeysOf::Only(c) => c == keys && keys.len() > 0,
                        PassKeysOf::Off => keys.len() == 0,
                        PassKeysOf::All => false,
                    }
                },
            }
        },
{
    if let Some(s) = e.decoration {
        if let Some(m) = window_rules::rule_mode_of(e.decoration) {
            lemma_rule_modes_go_by_their_names(s, m);
        }
    }
}

/// Does a text name this key, with a small letter for a capital?
pub open spec fn names_key(
    s: Seq<char>,
    mod_key: ModKey,
    table: Seq<(Seq<char>, u32)>,
    k: KeyCombo,
) -> bool {
    parse::key_combo_of(s, mod_key, table) matches Ok(c) && k.modifiers == c.modifiers && k.sym.raw
        == (if 0x41 <= c.sym.raw <= 0x5a {
        c.sym.raw + 0x20
    } else {
        c.sym.raw as int
    })
}

/// A key is let pass by a list if and only if some text of the list names it.
pub proof fn lemma_listed_keys_pass(
    keys: Seq<Seq<char>>,
    mod_key: ModKey,
    table: Seq<(Seq<char>, u32)>,
    k: KeyCombo,
)
    ensures
        window_rules::pass_combos(keys, mod_key, table).contains(k) <==> exists|i: int|
            0 <= i < keys.len() && names_key(#[trigger] keys[i], mod_key, table, k),
    decreases keys.len(),
{
    if keys.len() > 0 {
        let front = keys.drop_last();
        let before = window_rules::pass_combos(front, mod_key, table);
        let after = window_rules::pass_combos(keys, mod_key, table);
        lemma_listed_keys_pass(front, mod_key, table, k);
        let n = keys.len() - 1;
        assert(keys[n] == keys.last());
        if before.contains(k) {
            let i = choose|i: int|
                0 <= i < front.len() && names_key(#[trigger] front[i], mod_key, table, k);
            assert(front[i] == keys[i]);
            let j = choose|j: int| 0 <= j < before.len() && before[j] == k;
            assert(after[j] == k);
        }
        if after.contains(k) && !before.contains(k) {
            let j = choose|j: int| 0 <= j < after.len() && after[j] == k;
            assert(j == before.len()) by {
                if j < before.len() {
                    assert(before[j] == k);
                }
            }
            assert(names_key(keys[n], mod_key, table, k));
        }
        if names_key(keys[n], mod_key, table, k) {
            assert(after[before.len() as int] == k);
        }
        if exists|i: int| 0 <= i < keys.len() && names_key(#[trigger] keys[i], mod_key, table, k) {
            let i = choose|i: int|
                0 <= i < keys.len() && names_key(#[trigger] keys[i], mod_key, table, k);
            if i < n {
                assert(front[i] == keys[i]);
            }
        }
    }
}

} // verus!
