//! What cutting, trimming and reading text give, said of the text itself.
use vstd::prelude::*;

use crate::text;

verus! {

/// The pieces with a character between each two.
pub open spec fn joined(parts: Seq<Seq<char>>, c: char) -> Seq<char>
    decreases parts.len(),
{
    if parts.len() == 0 {
        Seq::empty()
    } else if parts.len() == 1 {
        parts[0]
    } else {
        parts[0] + seq![c] + joined(parts.drop_first(), c)
    }
}

proof fn lemma_split_from(s: Seq<char>, c: char, a: int)
    requires
        0 <= a <= s.len(),
    ensures
        ({
            let parts = text::split_from(s, c, a);
            &&& parts.len() > 0
            &&& joined(parts, c) == s.skip(a)
            &&& forall|i: int, j: int|
                0 <= i < parts.len() && 0 <= j < parts[i].len() ==> #[trigger] parts[i][j] != c
        }),
    decreases s.len() - a,
{
    text::lemma_find_char(s, c, a);
    let i = text::find_char(s, c, a);
    let parts = text::split_from(s, c, a);
    if i >= s.len() {
        assert(parts == seq![s.subrange(a, s.len() as int)]);
        assert(s.skip(a) == s.subrange(a, s.len() as int));
    } else {
        lemma_split_from(s, c, i + 1);
        let rest = text::split_from(s, c, i + 1);
        assert(parts == seq![s.subrange(a, i)] + rest);
        assert(parts.drop_first() == rest);
        assert(parts[0] == s.subrange(a, i));
        assert(s.skip(a) == s.subrange(a, i) + seq![c] + s.skip(i + 1));
        assert forall|k: int, j: int|
            0 <= k < parts.len() && 0 <= j < parts[k].len() implies #[trigger] parts[k][j] != c by {
            if k > 0 {
                assert(parts[k] == rest[k - 1]);
            }
        }
    }
}

/// The pieces of a text hold none of the character that it is cut at, and give
/// the text again when they are joined with it; there is at least one.
pub proof fn lemma_pieces_join_again(s: Seq<char>, c: char)
    ensures
        joined(text::split(s, c), c) == s,
        text::split(s, c).len() > 0,
        forall|i: int, j: int|
            0 <= i < text::split(s, c).len() && 0 <= j < text::split(s, c)[i].len()
                ==> #[trigger] text::split(s, c)[i][j] != c,
{
    lemma_split_from(s, c, 0);
    assert(s.skip(0) == s);
}

/// Among the first characters, the space and those from the tab to the carriage
/// return are white, and no other.
pub proof fn lemma_white_characters(c: char)
    requires
        (c as int) < 128,
    ensures
        text::white(c) == (c == ' ' || c == '\t' || c == '\n' || c == '\r' || c as int == 11
            || c as int == 12),
{
}

proof fn lemma_trim_start_bounds(s: Seq<char>) -> (a: int)
    ensures
        0 <= a <= s.len(),
        forall|j: int| 0 <= j < a ==> text::white(#[trigger] s[j]),
        a < s.len() ==> !text::white(s[a]),
        text::trim_start(s) == s.skip(a),
    decreases s.len(),
{
    if s.len() > 0 && text::white(s[0]) {
        let t = s.drop_first();
        let a = lemma_trim_start_bounds(t);
        assert forall|j: int| 0 <= j < a + 1 implies text::white(#[trigger] s[j]) by {
            if j > 0 {
                assert(t[j - 1] == s[j]);
            }
        }
        assert(t.skip(a) == s.skip(a + 1));
        if a < t.len() {
            assert(t[a] == s[a + 1]);
        }
        a + 1
    } else {
        assert(s.skip(0) == s);
        0
    }
}

proof fn lemma_trim_end_bounds(s: Seq<char>) -> (b: int)
    ensures
        0 <= b <= s.len(),
        forall|j: int| b <= j < s.len() ==> text::white(#[trigger] s[j]),
        b > 0 ==> !text::white(s[b - 1]),
        text::trim_end(s) == s.take(b),
    decreases s.len(),
{
    if s.len() > 0 && text::white(s.last()) {
        let t = s.drop_last();
        let b = lemma_trim_end_bounds(t);
        assert forall|j: int| b <= j < s.len() implies text::white(#[trigger] s[j]) by {
            if j < t.len() {
                assert(t[j] == s[j]);
            }
        }
        assert(t.take(b) == s.take(b));
        b
    } else {
        assert(s.take(s.len() as int) == s);
        s.len() as int
    }
}

/// White space around a text is taken away and nothing else: what has none at
/// either end is what is left of it with any amount around it.
pub proof fn lemma_trimming_takes_white_space(before: Seq<char>, s: Seq<char>, after: Seq<char>)
    requires
        forall|j: int| 0 <= j < before.len() ==> text::white(#[trigger] before[j]),
        forall|j: int| 0 <= j < after.len() ==> text::white(#[trigger] after[j]),
        s.len() > 0 ==> !text::white(s[0]) && !text::white(s.last()),
    ensures
        text::trimmed(before + s + after) == s,
{
    let t = before + s + after;
    if s.len() == 0 {
        assert forall|j: int| 0 <= j < t.len() implies text::white(t[j]) by {
            if j < before.len() {
                assert(t[j] == before[j]);
            } else {
                assert(t[j] == after[j - before.len()]);
            }
        }
        text::lemma_trim_start(t, t.len() as int);
        let u = t.skip(t.len() as int);
        text::lemma_trim_end(u, 0);
        assert(u.take(0) == s);
    } else {
        assert forall|j: int| 0 <= j < before.len() implies text::white(t[j]) by {
            assert(t[j] == before[j]);
        }
        assert(t[before.len() as int] == s[0]);
        text::lemma_trim_start(t, before.len() as int);
        let u = t.skip(before.len() as int);
        assert(u == s + after);
        assert forall|j: int| s.len() <= j < u.len() implies text::white(u[j]) by {
            assert(u[j] == after[j - s.len()]);
        }
        assert(u[s.len() - 1] == s.last());
        text::lemma_trim_end(u, s.len() as int);
        assert(u.take(s.len() as int) == s);
    }
}

/// What trimming leaves is a part of the text with white space alone around it,
/// and none at its own ends.
pub proof fn lemma_trimmed_is_the_middle(s: Seq<char>) -> (r: (int, int))
    ensures
        0 <= r.0 <= r.1 <= s.len(),
        text::trimmed(s) == s.subrange(r.0, r.1),
        forall|j: int| 0 <= j < r.0 ==> text::white(#[trigger] s[j]),
        forall|j: int| r.1 <= j < s.len() ==> text::white(#[trigger] s[j]),
        r.0 < r.1 ==> !text::white(s[r.0]) && !text::white(s[r.1 - 1]),
{
    let a = lemma_trim_start_bounds(s);
    let t = s.skip(a);
    let b = lemma_trim_end_bounds(t);
    assert(t.take(b) == s.subrange(a, a + b));
    assert forall|j: int| a + b <= j < s.len() implies text::white(#[trigger] s[j]) by {
        assert(t[j - a] == s[j]);
    }
    if b > 0 {
        assert(t[b - 1] == s[a + b - 1]);
    }
    (a, a + b)
}

/// Text is cut around its first white space, and not at all without one.
pub proof fn lemma_cut_around_white(a: Seq<char>, c: char, b: Seq<char>)
    requires
        forall|i: int| 0 <= i < a.len() ==> !text::white(#[trigger] a[i]),
        text::white(c),
    ensures
        text::split_once_white(a + seq![c] + b) == Some((a, b)),
        text::split_once_white(a) is None,
{
    let s = a + seq![c] + b;
    assert forall|j: int| 0 <= j < a.len() implies !text::white(s[j]) by {
        assert(s[j] == a[j]);
    }
    assert(s[a.len() as int] == c);
    text::lemma_find_white_is(s, 0, a.len() as int);
    assert(s.take(a.len() as int) == a);
    assert(s.skip((a.len() + 1) as int) == b);
    text::lemma_find_white_is(a, 0, a.len() as int);
}

proof fn lemma_find_text(s: Seq<char>, pat: Seq<char>, i: int)
    requires
        0 <= i <= s.len(),
        pat.len() > 0,
    ensures
        i <= text::find_text(s, pat, i) <= s.len(),
        text::find_text(s, pat, i) < s.len() ==> text::occurs_at(
            s,
            pat,
            text::find_text(s, pat, i),
        ),
        forall|j: int|
            i <= j < text::find_text(s, pat, i) ==> !#[trigger] text::occurs_at(s, pat, j),
    decreases s.len() - i,
{
    if i < s.len() && !text::occurs_at(s, pat, i) {
        lemma_find_text(s, pat, i + 1);
    }
}

/// Text is cut around the first place where another text stands in it, and the
/// three parts give it again; without such a place it is not cut.
pub proof fn lemma_cut_around_text(s: Seq<char>, pat: Seq<char>)
    requires
        pat.len() > 0,
    ensures
        match text::split_once_text(s, pat) {
            Some((a, b)) => a + pat + b == s && forall|j: int|
                0 <= j < a.len() ==> !#[trigger] text::occurs_at(s, pat, j),
            None => !text::has_text(s, pat),
        },
{
    lemma_find_text(s, pat, 0);
    let i = text::find_text(s, pat, 0);
    if i < s.len() {
        assert(s.take(i) + pat + s.skip(i + pat.len()) == s) by {
            assert(s.subrange(i, i + pat.len()) == pat);
            assert(s.take(i) + s.subrange(i, i + pat.len()) + s.skip(i + pat.len()) == s);
        }
    } else if text::has_text(s, pat) {
        let k = choose|k: int| text::occurs_at(s, pat, k);
        assert(k < s.len());
    }
}

/// A text holds another one that stands between two others in it.
pub proof fn lemma_text_is_found(a: Seq<char>, pat: Seq<char>, b: Seq<char>)
    ensures
        text::has_text(a + pat + b, pat),
{
    let s = a + pat + b;
    assert(s.subrange(a.len() as int, (a.len() + pat.len()) as int) == pat);
    assert(text::occurs_at(s, pat, a.len() as int));
}

/// The small form of a capital is its letter, and everything else is its own.
pub proof fn lemma_small_letters(s: Seq<char>, i: int)
    requires
        text::all_ascii(s),
        0 <= i < s.len(),
    ensures
        text::lowercase(s).len() == s.len(),
        ({
            let (c, r) = (s[i], text::lowercase(s)[i]);
            &&& 'A' <= c && c <= 'Z' ==> r as int == c as int - ('A' as int) + ('a' as int)
            &&& !('A' <= c && c <= 'Z') ==> r == c
        }),
{
    reveal(text::lowercase);
}

/// A digit more at the end of a number is ten times the number and the digit;
/// a leading sign is no digit.
pub proof fn lemma_digits_count(s: Seq<char>, c: char, max: nat)
    requires
        s.len() > 0,
        text::all_digits(s),
        '0' <= c && c <= '9',
    ensures
        text::decimal(s.push(c)) == 10 * text::decimal(s) + (c as int - '0' as int),
        text::unsigned(s, max) == (if text::decimal(s) <= max {
            Some(text::decimal(s))
        } else {
            None
        }),
        text::unsigned(seq!['+'] + s, max) == text::unsigned(s, max),
        text::unsigned(seq!['-'] + s, max) is None,
        text::decimal(s) <= 0x8000_0000 ==> text::signed(seq!['-'] + s) == Some(
            -(text::decimal(s) as int),
        ),
        text::decimal(s) > 0x8000_0000 ==> text::signed(seq!['-'] + s) is None,
        text::signed(s) == (if text::decimal(s) <= 0x7fff_ffff {
            Some(text::decimal(s) as int)
        } else {
            None
        }),
{
    assert(s.push(c).drop_last() == s);
    assert(text::digit(s[0]));
    assert((seq!['+'] + s).drop_first() == s);
    assert((seq!['-'] + s).drop_first() == s);
    assert(text::unsigned_digits(s) == s);
    assert(!text::digit((seq!['-'] + s)[0]));
}

/// What holds a character that is no digit behind its sign is no number.
pub proof fn lemma_numbers_are_digits(s: Seq<char>, i: int, max: nat)
    requires
        0 <= i < s.len(),
        !text::digit(s[i]),
        i > 0 || (s[0] != '+' && s[0] != '-'),
    ensures
        text::unsigned(s, max) is None,
        text::signed(s) is None,
{
    let d = s.drop_first();
    if i > 0 {
        assert(d[i - 1] == s[i]);
    }
}

} // verus!
