//! Warnings about configuration values, and the numeric checks that give them.
use vstd::prelude::*;

use crate::config::numbers;
use crate::config::numbers::Ranked;
use crate::text;
use crate::text::{join4, join5};

verus! {

/// How actionable a configuration warning is. The error bar has room for one
/// message, so `Rejected` (a value the compositor couldn't use) goes ahead of
/// `Corrected` (a value it auto-clamped to something usable).
#[derive(Clone, Copy, Debug, PartialEq, Eq, Structural)]
pub enum Severity {
    Rejected,
    Corrected,
}

/// Configuration warnings tagged with severity.
pub type Warnings = Vec<(Severity, String)>;

/// Model of a list of warnings.
pub open spec fn warned(w: Seq<(Severity, String)>) -> Seq<(Severity, Seq<char>)> {
    w.map_values(|p: (Severity, String)| (p.0, p.1@))
}

/// One warning about a value that could not be used.
pub open spec fn rejected(msg: Seq<char>) -> Seq<(Severity, Seq<char>)> {
    seq![(Severity::Rejected, msg)]
}

/// One warning about a value that was clamped.
pub open spec fn corrected(msg: Seq<char>) -> Seq<(Severity, Seq<char>)> {
    seq![(Severity::Corrected, msg)]
}

/// No warning.
pub open spec fn silent() -> Seq<(Severity, Seq<char>)> {
    Seq::empty()
}

/// To add no warning changes nothing.
pub proof fn lemma_silent(w: Seq<(Severity, Seq<char>)>)
    ensures
        w + silent() == w,
{
    assert(w + silent() =~= w);
}

/// Add a warning.
pub fn push_warn(errors: &mut Warnings, severity: Severity, msg: String)
    ensures
        warned(final(errors)@) == warned(old(errors)@) + seq![(severity, msg@)],
{
    errors.push((severity, msg));
    proof {
        assert(warned(errors@) =~= warned(old(errors)@) + seq![(severity, msg@)]);
    }
}

/// Warn about a value the compositor could not use (ignored or defaulted), as
/// opposed to one it clamped; see [`Severity`].
pub fn collect_warn(errors: &mut Warnings, msg: String)
    ensures
        warned(final(errors)@) == warned(old(errors)@) + rejected(msg@),
{
    push_warn(errors, Severity::Rejected, msg);
}

/// The place of a value after clamping into `[min, max]`: what is not a number
/// counts as too small.
pub open spec fn clamp_of<T: Ranked>(value: T, min: T, max: T) -> T {
    if numbers::below(value.rank(), min.rank()) {
        min
    } else if numbers::above(value.rank(), max.rank()) {
        max
    } else {
        value
    }
}

/// The warning that clamping gives.
pub open spec fn clamp_warning<T: Ranked>(value: T, min: T, max: T, field: Seq<char>) -> Seq<
    (Severity, Seq<char>),
> {
    if numbers::below(value.rank(), min.rank()) {
        corrected(
            "config: "@ + field + " "@ + value.shown() + " below minimum "@ + min.shown()
                + ", using "@ + min.shown(),
        )
    } else if numbers::above(value.rank(), max.rank()) {
        corrected(
            "config: "@ + field + " "@ + value.shown() + " above maximum "@ + max.shown()
                + ", using "@ + max.shown(),
        )
    } else {
        silent()
    }
}

/// Clamp into `[min, max]`, warning when out of range so that an invalid value
/// is surfaced rather than silently corrected.
pub fn clamp_warn<T: Ranked>(value: T, min: T, max: T, field: &str, errors: &mut Warnings) -> (r: T)
    ensures
        r == clamp_of(value, min, max),
        warned(final(errors)@) == warned(old(errors)@) + clamp_warning(value, min, max, field@),
{
    if value.not_at_least(&min) {
        let v: String = value.show();
        let m: String = min.show();
        let head: String = join5("config: ", field, " ", v.as_str(), " below minimum ");
        let msg: String = join4(head.as_str(), m.as_str(), ", using ", m.as_str());
        push_warn(errors, Severity::Corrected, msg);
        min
    } else if value.more_than(&max) {
        let v: String = value.show();
        let m: String = max.show();
        let head: String = join5("config: ", field, " ", v.as_str(), " above maximum ");
        let msg: String = join4(head.as_str(), m.as_str(), ", using ", m.as_str());
        push_warn(errors, Severity::Corrected, msg);
        max
    } else {
        proof {
            assert(warned(errors@) + silent() =~= warned(errors@));
        }
        value
    }
}

/// Is a value negative, or not a number?
pub open spec fn is_negative<T: Ranked>(value: T) -> bool {
    numbers::below(value.rank(), Some(0int))
}

/// The warning that a negative value gives.
pub open spec fn negative_warning<T: Ranked>(value: T, field: Seq<char>) -> Seq<
    (Severity, Seq<char>),
> {
    if is_negative(value) {
        corrected("config: "@ + field + " "@ + value.shown() + " is negative, using 0"@)
    } else {
        silent()
    }
}

/// Floor a value at zero, warning when it was negative (or not a number). For
/// settings with a natural lower bound but no upper limit.
pub fn non_negative<T: Ranked>(value: T, field: &str, errors: &mut Warnings) -> (r: T)
    ensures
        is_negative(value) ==> r.is_zero(),
        !is_negative(value) ==> r == value,
        warned(final(errors)@) == warned(old(errors)@) + negative_warning(value, field@),
{
    let zero: T = T::zero();
    if value.not_at_least(&zero) {
        let v: String = value.show();
        let msg: String = join5("config: ", field, " ", v.as_str(), " is negative, using 0");
        push_warn(errors, Severity::Corrected, msg);
        zero
    } else {
        proof {
            assert(warned(errors@) + silent() =~= warned(errors@));
        }
        value
    }
}

/// The messages of one severity, in order.
pub open spec fn messages(w: Seq<(Severity, Seq<char>)>, severity: Severity) -> Seq<Seq<char>>
    decreases w.len(),
{
    if w.len() == 0 {
        Seq::empty()
    } else if w.last().0 == severity {
        messages(w.drop_last(), severity).push(w.last().1)
    } else {
        messages(w.drop_last(), severity)
    }
}

/// The messages in the order in which they are displayed: rejected values
/// before clamped ones, each in the order in which they came.
pub open spec fn by_severity(w: Seq<(Severity, Seq<char>)>) -> Seq<Seq<char>> {
    messages(w, Severity::Rejected) + messages(w, Severity::Corrected)
}

/// Append the messages of one severity.
fn take_messages(errors: &Warnings, severity: Severity, out: &mut Vec<String>)
    ensures
        text::string_views(final(out)@) == text::string_views(old(out)@) + messages(
            warned(errors@),
            severity,
        ),
{
    let n: usize = errors.len();
    let mut i: usize = 0;
    let ghost start = text::string_views(out@);
    let ghost all = warned(errors@);
    proof {
        assert(start =~= start + messages(all.take(0), severity));
    }
    while i < n
        invariant
            i <= n,
            n == errors@.len(),
            all == warned(errors@),
            text::string_views(out@) == start + messages(all.take(i as int), severity),
        decreases n - i,
    {
        proof {
            assert(all.take(i + 1).drop_last() =~= all.take(i as int));
            assert(all.take(i + 1).last() == (errors@[i as int].0, errors@[i as int].1@));
        }
        if errors[i].0 == severity {
            let ghost before = out@;
            let m: String = errors[i].1.clone();
            out.push(m);
            proof {
                assert(text::string_views(out@) =~= text::string_views(before).push(m@));
                assert(text::string_views(out@) =~= start + messages(all.take(i + 1), severity));
            }
        }
        i = i + 1;
    }
    proof {
        assert(all.take(n as int) =~= all);
    }
}

/// The messages for display, most actionable first; the order within a
/// severity is kept.
pub fn sorted_messages(errors: &Warnings) -> (r: Vec<String>)
    ensures
        text::string_views(r@) == by_severity(warned(errors@)),
{
    let mut out: Vec<String> = Vec::new();
    proof {
        assert(text::string_views(out@) =~= Seq::<Seq<char>>::empty());
    }
    take_messages(errors, Severity::Rejected, &mut out);
    take_messages(errors, Severity::Corrected, &mut out);
    proof {
        assert(text::string_views(out@) =~= by_severity(warned(errors@)));
    }
    out
}

} // verus!
