//! Patterns that window rules match `app_id` and `title` with.
use vstd::prelude::*;

use crate::config::types;
use crate::config::warnings;
use crate::config::warnings::{collect_warn, Severity, Warnings};
use crate::text::{chars_of, join5};

verus! {

/// Why a text is not a regular expression; none where it is one.
pub uninterp spec fn regex_error(pattern: Seq<char>) -> Option<Seq<char>>;

/// `regex::Regex::new`: the displayed error of a text that does not compile.
/// Compiling depends on the text alone.
#[verifier::external_body]
fn regex_problem(pattern: &str) -> (r: Option<String>)
    ensures
        types::opt_text(r) == regex_error(pattern@),
{
    match regex::Regex::new(pattern) {
        Ok(_) => None,
        Err(e) => Some(e.to_string()),
    }
}

/// Does a regular expression match somewhere in a text? None where the
/// pattern is no regular expression.
pub uninterp spec fn regex_match(pattern: Seq<char>, haystack: Seq<char>) -> Option<bool>;

/// `regex::Regex::is_match`, on the expression compiled from the pattern: the
/// answer depends on the pattern and the text alone, and there is one exactly
/// when the pattern compiles.
#[verifier::external_body]
fn is_regex_match(pattern: &str, haystack: &str) -> (r: Option<bool>)
    ensures
        r == regex_match(pattern@, haystack@),
        r is Some == regex_error(pattern@) is None,
{
    match regex::Regex::new(pattern) {
        Ok(re) => Some(re.is_match(haystack)),
        Err(_) => None,
    }
}

/// A glob (`*` stands for any run of characters) or a regular expression.
#[derive(Debug, PartialEq, Eq)]
pub enum PatternOf<S> {
    Glob(S),
    Regex(S),
}

pub type Pattern = PatternOf<String>;

impl View for PatternOf<String> {
    type V = PatternOf<Seq<char>>;

    open spec fn view(&self) -> PatternOf<Seq<char>> {
        match *self {
            PatternOf::Glob(s) => PatternOf::Glob(s@),
            PatternOf::Regex(s) => PatternOf::Regex(s@),
        }
    }
}

/// Does the glob `p` match the whole text `s`?
pub open spec fn glob(p: Seq<char>, s: Seq<char>) -> bool
    decreases p.len() + s.len(),
{
    if p.len() == 0 {
        s.len() == 0
    } else if p[0] == '*' {
        glob(p.drop_first(), s) || (s.len() > 0 && glob(p, s.drop_first()))
    } else {
        s.len() > 0 && p[0] == s[0] && glob(p.drop_first(), s.drop_first())
    }
}

/// Does a pattern match a text?
pub open spec fn pattern_matches(p: PatternOf<Seq<char>>, s: Seq<char>) -> bool {
    match p {
        PatternOf::Glob(g) => glob(g, s),
        PatternOf::Regex(r) => regex_match(r, s) == Some(true),
    }
}

/// The row of a glob table: entry `j` tells whether the glob `p` matches the
/// text from `j` on.
pub open spec fn row_of(row: Seq<bool>, p: Seq<char>, s: Seq<char>) -> bool {
    &&& row.len() == s.len() + 1
    &&& forall|j: int| 0 <= j <= s.len() ==> row[j] == glob(p, #[trigger] s.skip(j))
}

/// The row for the pattern that starts with `c` and goes on as the pattern of
/// the row `next`.
fn extend_row(c: char, next: &Vec<bool>, s: &Vec<char>, Ghost(p): Ghost<Seq<char>>) -> (r: Vec<
    bool,
>)
    requires
        p.len() > 0,
        p[0] == c,
        row_of(next@, p.drop_first(), s@),
    ensures
        row_of(r@, p, s@),
{
    let n: usize = s.len();
    let mut back: Vec<bool> = Vec::new();
    let last: bool = if c == '*' {
        next[n]
    } else {
        false
    };
    back.push(last);
    proof {
        assert(s@.skip(n as int).len() == 0);
    }
    let mut k: usize = 0;
    while k < n
        invariant
            k <= n,
            n == s@.len(),
            p.len() > 0,
            p[0] == c,
            row_of(next@, p.drop_first(), s@),
            back@.len() == k + 1,
            forall|m: int| 0 <= m <= k ==> #[trigger] back@[m] == glob(p, s@.skip(n - m)),
        decreases n - k,
    {
        let j: usize = n - k - 1;
        proof {
            assert(s@.skip(j as int)[0] == s@[j as int]);
            assert(s@.skip(j as int).drop_first() =~= s@.skip(j + 1));
            assert(back@[k as int] == glob(p, s@.skip(n - k)));
        }
        let b: bool = if c == '*' {
            next[j] || back[k]
        } else {
            s[j] == c && next[j + 1]
        };
        back.push(b);
        k = k + 1;
    }
    let mut row: Vec<bool> = Vec::new();
    let total: usize = back.len();
    let mut i: usize = 0;
    while i < total
        invariant
            i <= total,
            n == s@.len(),
            total == n + 1,
            back@.len() == total,
            forall|m: int| 0 <= m <= n ==> #[trigger] back@[m] == glob(p, s@.skip(n - m)),
            row@.len() == i,
            forall|j: int| 0 <= j < i ==> row@[j] == glob(p, #[trigger] s@.skip(j)),
        decreases total - i,
    {
        row.push(back[n - i]);
        i = i + 1;
    }
    row
}

/// Does the glob `p` match the whole text `s`?
pub fn glob_matches(p: &str, s: &str) -> (r: bool)
    ensures
        r == glob(p@, s@),
{
    let pc: Vec<char> = chars_of(p);
    let sc: Vec<char> = chars_of(s);
    let m: usize = pc.len();
    let n: usize = sc.len();
    let mut row: Vec<bool> = Vec::new();
    let mut i: usize = 0;
    while i < n
        invariant
            i <= n,
            n == sc@.len(),
            row@.len() == i,
            forall|j: int| 0 <= j < i ==> row@[j] == false,
        decreases n - i,
    {
        row.push(false);
        i = i + 1;
    }
    row.push(true);
    proof {
        assert(p@.skip(m as int).len() == 0);
    }
    let mut k: usize = m;
    while k > 0
        invariant
            k <= m,
            m == pc@.len(),
            pc@ == p@,
            sc@ == s@,
            row_of(row@, p@.skip(k as int), s@),
        decreases k,
    {
        k = k - 1;
        proof {
            assert(p@.skip(k as int).drop_first() =~= p@.skip(k + 1));
        }
        row = extend_row(pc[k], &row, &sc, Ghost(p@.skip(k as int)));
    }
    proof {
        assert(p@.skip(0) =~= p@);
        assert(s@.skip(0) =~= s@);
    }
    row[0]
}

/// Does a pattern match a text, given what the regular expression says?
pub open spec fn matches_given(p: PatternOf<Seq<char>>, s: Seq<char>, found: Option<bool>) -> bool {
    match p {
        PatternOf::Glob(g) => glob(g, s),
        PatternOf::Regex(_) => found == Some(true),
    }
}

impl PatternOf<String> {
    /// Does the pattern match a text, given what the regular expression says of
    /// it (none for one that does not compile)?
    pub fn matches_with(&self, s: &str, found: Option<bool>) -> (r: bool)
        ensures
            r == matches_given(self@, s@, found),
    {
        match self {
            PatternOf::Glob(g) => glob_matches(g.as_str(), s),
            PatternOf::Regex(_) => match found {
                Some(b) => b,
                None => false,
            },
        }
    }

    /// Does the pattern match a text?
    pub fn matches(&self, s: &str) -> (r: bool)
        ensures
            r == pattern_matches(self@, s@),
    {
        let found: Option<bool> = match self {
            PatternOf::Glob(_) => None,
            PatternOf::Regex(p) => is_regex_match(p.as_str(), s),
        };
        self.matches_with(s, found)
    }
}

/// Is a text written between two slashes?
pub open spec fn slashed(s: Seq<char>) -> bool {
    s.len() >= 2 && s[0] == '/' && s.last() == '/'
}

/// What is between the slashes of a text.
pub open spec fn unslashed(s: Seq<char>) -> Seq<char> {
    s.subrange(1, s.len() - 1)
}

/// The pattern that a text stands for, given why it is no regular expression:
/// a regular expression between slashes, a glob otherwise. What does not
/// compile is taken literally.
pub open spec fn pattern_given(s: Seq<char>, problem: Option<Seq<char>>) -> PatternOf<Seq<char>> {
    if slashed(s) && problem is None {
        PatternOf::Regex(unslashed(s))
    } else {
        PatternOf::Glob(s)
    }
}

/// The pattern that a text stands for.
pub open spec fn pattern_of(s: Seq<char>) -> PatternOf<Seq<char>> {
    pattern_given(s, regex_error(unslashed(s)))
}

/// The warning about a text between slashes, given why it does not compile.
pub open spec fn warning_given(s: Seq<char>, problem: Option<Seq<char>>) -> Seq<
    (Severity, Seq<char>),
> {
    match problem {
        Some(e) if slashed(s) => warnings::rejected(
            "config: invalid regex '/"@ + unslashed(s) + "/': "@ + e
                + ", treating as literal glob"@,
        ),
        _ => warnings::silent(),
    }
}

/// The warning about a text between slashes that does not compile.
pub open spec fn pattern_warning(s: Seq<char>) -> Seq<(Severity, Seq<char>)> {
    warning_given(s, regex_error(unslashed(s)))
}

/// What is between the slashes of a text, if it has them.
fn between_slashes<'a>(s: &'a str) -> (r: Option<&'a str>)
    ensures
        match r {
            Some(inner) => slashed(s@) && inner@ == unslashed(s@),
            None => !slashed(s@),
        },
{
    let v: Vec<char> = chars_of(s);
    let n: usize = v.len();
    if n >= 2 && v[0] == '/' && v[n - 1] == '/' {
        Some(s.substring_char(1, n - 1))
    } else {
        None
    }
}

/// The pattern that a text stands for, given why what is between its slashes
/// is no regular expression (none where it is one).
pub fn pattern_from(s: &str, problem: Option<String>, errors: &mut Warnings) -> (r: Pattern)
    ensures
        r@ == pattern_given(s@, types::opt_text(problem)),
        warnings::warned(final(errors)@) == warnings::warned(old(errors)@) + warning_given(
            s@,
            types::opt_text(problem),
        ),
{
    match (between_slashes(s), problem) {
        (Some(inner), None) => {
            proof {
                warnings::lemma_silent(warnings::warned(errors@));
            }
            Pattern::Regex(inner.to_owned())
        },
        (Some(inner), Some(e)) => {
            collect_warn(
                errors,
                join5(
                    "config: invalid regex '/",
                    inner,
                    "/': ",
                    e.as_str(),
                    ", treating as literal glob",
                ),
            );
            Pattern::Glob(s.to_owned())
        },
        (None, _) => {
            proof {
                warnings::lemma_silent(warnings::warned(errors@));
            }
            Pattern::Glob(s.to_owned())
        },
    }
}

/// Parse a pattern.
pub fn parse_pattern(s: &str, errors: &mut Warnings) -> (r: Pattern)
    ensures
        r@ == pattern_of(s@),
        warnings::warned(final(errors)@) == warnings::warned(old(errors)@) + pattern_warning(s@),
{
    let problem: Option<String> = match between_slashes(s) {
        Some(inner) => regex_problem(inner),
        None => None,
    };
    pattern_from(s, problem, errors)
}

} // verus!
