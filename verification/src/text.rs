//! Text primitives shared by the configuration grammar: trimming, splitting,
//! number parsing and message building, each stated over `Seq<char>`.
use vstd::prelude::*;

verus! {

/// `String::push` appends one character to the end of the string.
pub assume_specification[ String::push ](s: &mut String, c: char)
    ensures
        final(s)@ == old(s)@.push(c),
;

/// The lowercase form of a text under Unicode's default case conversion.
pub uninterp spec fn unicode_lowercase(s: Seq<char>) -> Seq<char>;

/// Lowercase of one ASCII character; other characters are left alone.
pub open spec fn ascii_lower(c: char) -> char {
    if 'A' <= c && c <= 'Z' {
        ((c as int) + 32) as char
    } else {
        c
    }
}

/// True when every character is ASCII.
pub open spec fn all_ascii(s: Seq<char>) -> bool {
    forall|i: int| 0 <= i < s.len() ==> (#[trigger] s[i] as int) < 128
}

/// A text with its ASCII letters lowered.
pub open spec fn ascii_lowered(s: Seq<char>) -> Seq<char> {
    Seq::new(s.len(), |i: int| ascii_lower(s[i]))
}

/// The lowercase form of a text: on ASCII text each letter is lowered, and any
/// other text follows Unicode.
#[verifier::opaque]
pub open spec fn lowercase(s: Seq<char>) -> Seq<char> {
    if all_ascii(s) {
        ascii_lowered(s)
    } else {
        unicode_lowercase(s)
    }
}

/// `str::to_lowercase`: the result depends on the text alone, so it has a
/// name; on ASCII text it lowers each letter and keeps everything else.
#[verifier::external_body]
fn std_lowercase(s: &str) -> (r: String)
    ensures
        r@ == unicode_lowercase(s@),
        all_ascii(s@) ==> r@ == ascii_lowered(s@),
{
    s.to_lowercase()
}

/// The lowercase form of a text.
pub(crate) fn to_lowercase(s: &str) -> (r: String)
    ensures
        r@ == lowercase(s@),
{
    proof {
        reveal(lowercase);
    }
    std_lowercase(s)
}

/// ASCII text without capitals is its own lowercase form.
pub proof fn lemma_already_lower(s: Seq<char>)
    requires
        forall|i: int| 0 <= i < s.len() ==> (#[trigger] s[i] as int) < 128 && !('A' <= s[i] <= 'Z'),
    ensures
        lowercase(s) == s,
{
    reveal(lowercase);
    assert(ascii_lowered(s) =~= s);
}

/// Characters with the Unicode White_Space property.
pub open spec fn white(c: char) -> bool {
    let n = c as int;
    ||| 0x9 <= n <= 0xd
    ||| n == 0x20
    ||| n == 0x85
    ||| n == 0xa0
    ||| n == 0x1680
    ||| 0x2000 <= n <= 0x200a
    ||| n == 0x2028
    ||| n == 0x2029
    ||| n == 0x202f
    ||| n == 0x205f
    ||| n == 0x3000
}

pub fn is_white(c: char) -> (r: bool)
    ensures
        r == white(c),
{
    let n: u32 = c as u32;
    (0x9 <= n && n <= 0xd) || n == 0x20 || n == 0x85 || n == 0xa0 || n == 0x1680 || (0x2000 <= n
        && n <= 0x200a) || n == 0x2028 || n == 0x2029 || n == 0x202f || n == 0x205f || n == 0x3000
}

pub open spec fn trim_start(s: Seq<char>) -> Seq<char>
    decreases s.len(),
{
    if s.len() > 0 && white(s[0]) {
        trim_start(s.drop_first())
    } else {
        s
    }
}

pub open spec fn trim_end(s: Seq<char>) -> Seq<char>
    decreases s.len(),
{
    if s.len() > 0 && white(s.last()) {
        trim_end(s.drop_last())
    } else {
        s
    }
}

/// A text without its leading and trailing whitespace.
pub open spec fn trimmed(s: Seq<char>) -> Seq<char> {
    trim_end(trim_start(s))
}

/// The views of a sequence of string slices.
pub open spec fn views(v: Seq<&str>) -> Seq<Seq<char>> {
    v.map_values(|s: &str| s@)
}

/// The views of a sequence of owned strings.
pub open spec fn string_views(v: Seq<String>) -> Seq<Seq<char>> {
    v.map_values(|s: String| s@)
}

/// First index at or after `i` that holds `c`, or the length.
pub open spec fn find_char(s: Seq<char>, c: char, i: int) -> int
    decreases s.len() - i,
{
    if i >= s.len() {
        s.len() as int
    } else if s[i] == c {
        i
    } else {
        find_char(s, c, i + 1)
    }
}

/// First index at or after `i` that holds whitespace, or the length.
pub open spec fn find_white(s: Seq<char>, i: int) -> int
    decreases s.len() - i,
{
    if i >= s.len() {
        s.len() as int
    } else if white(s[i]) {
        i
    } else {
        find_white(s, i + 1)
    }
}

/// Does `pat` stand in `s` at index `i`?
pub open spec fn occurs_at(s: Seq<char>, pat: Seq<char>, i: int) -> bool {
    0 <= i && i + pat.len() <= s.len() && s.subrange(i, i + pat.len()) == pat
}

/// First index at or after `i` where `pat` stands, or the length.
pub open spec fn find_text(s: Seq<char>, pat: Seq<char>, i: int) -> int
    decreases s.len() - i,
{
    if i >= s.len() {
        s.len() as int
    } else if occurs_at(s, pat, i) {
        i
    } else {
        find_text(s, pat, i + 1)
    }
}

/// The parts of `s` from `a` on, cut at every `c`.
pub open spec fn split_from(s: Seq<char>, c: char, a: int) -> Seq<Seq<char>>
    decreases s.len() - a,
    when 0 <= a <= s.len() via split_from_ends
{
    let i = find_char(s, c, a);
    if i >= s.len() {
        seq![s.subrange(a, s.len() as int)]
    } else {
        seq![s.subrange(a, i)] + split_from(s, c, i + 1)
    }
}

#[via_fn]
proof fn split_from_ends(s: Seq<char>, c: char, a: int) {
    lemma_find_char(s, c, a);
}

/// The parts of `s` cut at every `c`.
pub open spec fn split(s: Seq<char>, c: char) -> Seq<Seq<char>> {
    split_from(s, c, 0)
}

/// The parts of `s` cut at every `c`, each without surrounding whitespace.
pub open spec fn split_trimmed(s: Seq<char>, c: char) -> Seq<Seq<char>> {
    split(s, c).map_values(|p: Seq<char>| trimmed(p))
}

/// `s` cut around the first whitespace character.
pub open spec fn split_once_white(s: Seq<char>) -> Option<(Seq<char>, Seq<char>)> {
    let i = find_white(s, 0);
    if i >= s.len() {
        None
    } else {
        Some((s.take(i), s.skip(i + 1)))
    }
}

/// `s` cut around the first `c`.
pub open spec fn split_once_char(s: Seq<char>, c: char) -> Option<(Seq<char>, Seq<char>)> {
    let i = find_char(s, c, 0);
    if i >= s.len() {
        None
    } else {
        Some((s.take(i), s.skip(i + 1)))
    }
}

/// `s` cut around the first `pat`.
pub open spec fn split_once_text(s: Seq<char>, pat: Seq<char>) -> Option<(Seq<char>, Seq<char>)> {
    let i = find_text(s, pat, 0);
    if i >= s.len() {
        None
    } else {
        Some((s.take(i), s.skip(i + pat.len())))
    }
}

/// Does `pat` stand somewhere in `s`?
pub open spec fn has_text(s: Seq<char>, pat: Seq<char>) -> bool {
    exists|i: int| occurs_at(s, pat, i)
}

pub open spec fn digit(c: char) -> bool {
    '0' <= c && c <= '9'
}

pub open spec fn all_digits(s: Seq<char>) -> bool {
    forall|i: int| 0 <= i < s.len() ==> digit(#[trigger] s[i])
}

/// The number that a run of decimal digits stands for.
pub open spec fn decimal(s: Seq<char>) -> nat
    decreases s.len(),
{
    if s.len() == 0 {
        0
    } else {
        10 * decimal(s.drop_last()) + ((s.last() as int) - ('0' as int)) as nat
    }
}

/// The digits after an optional leading plus sign.
pub open spec fn unsigned_digits(s: Seq<char>) -> Seq<char> {
    if s.len() > 0 && s[0] == '+' {
        s.drop_first()
    } else {
        s
    }
}

/// An unsigned number: an optional plus sign and at least one digit, no larger
/// than `max`.
pub open spec fn unsigned(s: Seq<char>, max: nat) -> Option<nat> {
    let d = unsigned_digits(s);
    if d.len() > 0 && all_digits(d) && decimal(d) <= max {
        Some(decimal(d))
    } else {
        None
    }
}

/// A signed 32-bit number: an optional sign and at least one digit, in range.
pub open spec fn signed(s: Seq<char>) -> Option<int> {
    if s.len() > 0 && s[0] == '-' {
        let d = s.drop_first();
        if d.len() > 0 && all_digits(d) && -decimal(d) >= i32::MIN {
            Some(-(decimal(d) as int))
        } else {
            None
        }
    } else {
        match unsigned(s, i32::MAX as nat) {
            Some(n) => Some(n as int),
            None => None,
        }
    }
}

/// Decimal digits of a number, without leading zeros.
pub open spec fn nat_text(n: nat) -> Seq<char>
    decreases n,
{
    if n < 10 {
        seq![((('0' as int) + n) as char)]
    } else {
        nat_text(n / 10).push((('0' as int) + n % 10) as char)
    }
}

/// A number the way it is displayed.
pub open spec fn int_text(n: int) -> Seq<char> {
    if n < 0 {
        seq!['-'] + nat_text((-n) as nat)
    } else {
        nat_text(n as nat)
    }
}

pub proof fn lemma_find_char(s: Seq<char>, c: char, i: int)
    requires
        0 <= i <= s.len(),
    ensures
        i <= find_char(s, c, i) <= s.len(),
        find_char(s, c, i) < s.len() ==> s[find_char(s, c, i)] == c,
        forall|j: int| i <= j < find_char(s, c, i) ==> s[j] != c,
    decreases s.len() - i,
{
    if i < s.len() && s[i] != c {
        lemma_find_char(s, c, i + 1);
    }
}

/// A run of decimal digits stands for the number that it displays.
pub proof fn lemma_nat_text(n: nat)
    ensures
        nat_text(n).len() > 0,
        all_digits(nat_text(n)),
        decimal(nat_text(n)) == n,
    decreases n,
{
    if n < 10 {
        let t = nat_text(n);
        assert(t.drop_last() =~= Seq::empty());
        assert(decimal(t.drop_last()) == 0);
        assert(t.last() as int == ('0' as int) + n);
    } else {
        let front = nat_text(n / 10);
        lemma_nat_text(n / 10);
        let t = nat_text(n);
        assert(t.drop_last() =~= front);
        assert(t.last() as int == ('0' as int) + n % 10);
        assert forall|i: int| 0 <= i < t.len() implies digit(#[trigger] t[i]) by {
            if i < front.len() {
                assert(t[i] == front[i]);
            }
        }
    }
}

/// A number reads back from the way it is displayed, as far as it is in range.
pub proof fn lemma_displayed_number_reads_back(n: int)
    ensures
        i32::MIN <= n <= i32::MAX ==> signed(int_text(n)) == Some(n),
        forall|max: nat| 0 <= n <= max ==> #[trigger] unsigned(int_text(n), max) == Some(n as nat),
        forall|i: int|
            0 <= i < int_text(n).len() ==> (digit(#[trigger] int_text(n)[i]) || int_text(n)[i]
                == '-'),
{
    if n < 0 {
        lemma_nat_text((-n) as nat);
        assert(int_text(n).drop_first() =~= nat_text((-n) as nat));
    } else {
        lemma_nat_text(n as nat);
        assert(digit(nat_text(n as nat)[0]));
    }
}

/// Text is cut around the first of a character, whatever follows it.
pub proof fn lemma_cut_around_first(a: Seq<char>, c: char, b: Seq<char>)
    requires
        forall|i: int| 0 <= i < a.len() ==> #[trigger] a[i] != c,
    ensures
        split_once_char(a + seq![c] + b, c) == Some((a, b)),
{
    let s = a + seq![c] + b;
    lemma_find_char(s, c, 0);
    let i = find_char(s, c, 0);
    assert(s[a.len() as int] == c);
    if i < a.len() {
        assert(s[i] == a[i]);
    }
    assert(i == a.len());
    assert(s.take(i) =~= a);
    assert(s.skip(i + 1) =~= b);
}

/// Text without a character is not cut at it.
pub proof fn lemma_no_cut(s: Seq<char>, c: char)
    requires
        forall|i: int| 0 <= i < s.len() ==> #[trigger] s[i] != c,
    ensures
        split_once_char(s, c) is None,
{
    lemma_find_char(s, c, 0);
}

/// Are two texts the same?
pub fn text_eq(a: &str, b: &str) -> (r: bool)
    ensures
        r == (a@ == b@),
{
    a.to_owned() == b.to_owned()
}

/// The characters of a text.
pub fn chars_of(s: &str) -> (r: Vec<char>)
    ensures
        r@ == s@,
{
    let mut v: Vec<char> = Vec::new();
    for c in it: s.chars()
        invariant
            v@ == it.seq().take(it.index() as int),
            it.seq() == s@,
    {
        v.push(c);
    }
    v
}

/// Three texts in a row.
pub fn join3(a: &str, b: &str, c: &str) -> (r: String)
    ensures
        r@ == a@ + b@ + c@,
{
    let mut m: String = a.to_owned();
    m.append(b);
    m.append(c);
    m
}

/// Four texts in a row.
pub fn join4(a: &str, b: &str, c: &str, d: &str) -> (r: String)
    ensures
        r@ == a@ + b@ + c@ + d@,
{
    let mut m: String = join3(a, b, c);
    m.append(d);
    m
}

/// Five texts in a row.
pub fn join5(a: &str, b: &str, c: &str, d: &str, e: &str) -> (r: String)
    ensures
        r@ == a@ + b@ + c@ + d@ + e@,
{
    let mut m: String = join3(a, b, c);
    m.append(d);
    m.append(e);
    m
}

pub proof fn lemma_trim_start(s: Seq<char>, a: int)
    requires
        0 <= a <= s.len(),
        forall|j: int| 0 <= j < a ==> white(s[j]),
        a < s.len() ==> !white(s[a]),
    ensures
        trim_start(s) == s.skip(a),
    decreases a,
{
    if a > 0 {
        let t = s.drop_first();
        assert forall|j: int| 0 <= j < a - 1 implies white(t[j]) by {
            assert(t[j] == s[j + 1]);
        }
        lemma_trim_start(t, a - 1);
        assert(t.skip(a - 1) =~= s.skip(a));
    } else {
        assert(s.skip(0) =~= s);
    }
}

pub proof fn lemma_trim_end(s: Seq<char>, b: int)
    requires
        0 <= b <= s.len(),
        forall|j: int| b <= j < s.len() ==> white(s[j]),
        b > 0 ==> !white(s[b - 1]),
    ensures
        trim_end(s) == s.take(b),
    decreases s.len() - b,
{
    if b < s.len() {
        let t = s.drop_last();
        lemma_trim_end(t, b);
        assert(t.take(b) =~= s.take(b));
    } else {
        assert(s.take(b) =~= s);
    }
}

/// `s` without its leading and trailing whitespace.
pub fn trim(s: &str) -> (r: &str)
    ensures
        r@ == trimmed(s@),
{
    let v: Vec<char> = chars_of(s);
    let n: usize = v.len();
    let mut a: usize = 0;
    while a < n && is_white(v[a])
        invariant
            a <= n,
            n == v@.len(),
            forall|j: int| 0 <= j < a ==> white(v@[j]),
        decreases n - a,
    {
        a = a + 1;
    }
    let mut b: usize = n;
    while b > a && is_white(v[b - 1])
        invariant
            a <= b <= n,
            n == v@.len(),
            forall|j: int| b <= j < n ==> white(v@[j]),
        decreases b,
    {
        b = b - 1;
    }
    proof {
        lemma_trim_start(s@, a as int);
        let t = s@.skip(a as int);
        lemma_trim_end(t, b - a);
        assert(t.take(b - a) =~= s@.subrange(a as int, b as int));
    }
    s.substring_char(a, b)
}

/// `s` without its leading whitespace.
pub fn skip_white(s: &str) -> (r: &str)
    ensures
        r@ == trim_start(s@),
{
    let v: Vec<char> = chars_of(s);
    let n: usize = v.len();
    let mut a: usize = 0;
    while a < n && is_white(v[a])
        invariant
            a <= n,
            n == v@.len(),
            forall|j: int| 0 <= j < a ==> white(v@[j]),
        decreases n - a,
    {
        a = a + 1;
    }
    proof {
        lemma_trim_start(s@, a as int);
    }
    s.substring_char(a, n)
}

/// The parts of `s` cut at every `c`, each without surrounding whitespace.
pub fn split_trim<'a>(s: &'a str, c: char) -> (r: Vec<&'a str>)
    ensures
        views(r@) == split_trimmed(s@, c),
        r@.len() > 0,
{
    let v: Vec<char> = chars_of(s);
    let n: usize = v.len();
    let mut parts: Vec<&'a str> = Vec::new();
    let ghost mut raw: Seq<Seq<char>> = Seq::empty();
    let mut a: usize = 0;
    let mut i: usize = 0;
    while i < n
        invariant
            a <= i <= n,
            n == v@.len(),
            v@ == s@,
            split(s@, c) == raw + split_from(s@, c, a as int),
            views(parts@) == raw.map_values(|p: Seq<char>| trimmed(p)),
            forall|j: int| a <= j < i ==> s@[j] != c,
        decreases n - i,
    {
        if v[i] == c {
            let part: &'a str = s.substring_char(a, i);
            proof {
                lemma_find_char_is(s@, c, a as int, i as int);
                let rest = split_from(s@, c, i + 1);
                assert(raw + (seq![part@] + rest) =~= raw.push(part@) + rest);
                raw = raw.push(part@);
            }
            let ghost before = parts@;
            let t: &'a str = trim(part);
            parts.push(t);
            proof {
                assert(views(parts@) =~= views(before).push(trimmed(part@)));
                assert(raw.map_values(|p: Seq<char>| trimmed(p)) =~= raw.drop_last().map_values(
                    |p: Seq<char>| trimmed(p),
                ).push(trimmed(part@)));
                assert(raw.drop_last() =~= raw.take(raw.len() - 1));
            }
            a = i + 1;
        }
        i = i + 1;
    }
    let part: &'a str = s.substring_char(a, n);
    let ghost before = parts@;
    let t: &'a str = trim(part);
    parts.push(t);
    proof {
        lemma_find_char_is(s@, c, a as int, n as int);
        assert(split(s@, c) =~= raw.push(part@));
        assert(views(parts@) =~= views(before).push(trimmed(part@)));
        assert(split_trimmed(s@, c) =~= raw.map_values(|p: Seq<char>| trimmed(p)).push(
            trimmed(part@),
        ));
    }
    parts
}

/// The parts of `s` cut at every `c`.
pub fn split_parts<'a>(s: &'a str, c: char) -> (r: Vec<&'a str>)
    ensures
        views(r@) == split(s@, c),
{
    let v: Vec<char> = chars_of(s);
    let n: usize = v.len();
    let mut parts: Vec<&'a str> = Vec::new();
    let mut a: usize = 0;
    let mut i: usize = 0;
    proof {
        assert(views(parts@) + split(s@, c) =~= split(s@, c));
    }
    while i < n
        invariant
            a <= i <= n,
            n == v@.len(),
            v@ == s@,
            split(s@, c) == views(parts@) + split_from(s@, c, a as int),
            forall|j: int| a <= j < i ==> s@[j] != c,
        decreases n - i,
    {
        if v[i] == c {
            let part: &'a str = s.substring_char(a, i);
            let ghost before = parts@;
            parts.push(part);
            proof {
                lemma_find_char_is(s@, c, a as int, i as int);
                let rest = split_from(s@, c, i + 1);
                assert(views(parts@) =~= views(before).push(part@));
                assert(views(before) + (seq![part@] + rest) =~= views(parts@) + rest);
            }
            a = i + 1;
        }
        i = i + 1;
    }
    let part: &'a str = s.substring_char(a, n);
    let ghost before = parts@;
    parts.push(part);
    proof {
        lemma_find_char_is(s@, c, a as int, n as int);
        assert(views(parts@) =~= views(before) + seq![part@]);
    }
    parts
}

pub proof fn lemma_find_char_is(s: Seq<char>, c: char, a: int, i: int)
    requires
        0 <= a <= i <= s.len(),
        forall|j: int| a <= j < i ==> s[j] != c,
        i < s.len() ==> s[i] == c,
    ensures
        find_char(s, c, a) == i,
    decreases i - a,
{
    if a < i {
        lemma_find_char_is(s, c, a + 1, i);
    }
}

pub proof fn lemma_find_white_is(s: Seq<char>, a: int, i: int)
    requires
        0 <= a <= i <= s.len(),
        forall|j: int| a <= j < i ==> !white(s[j]),
        i < s.len() ==> white(s[i]),
    ensures
        find_white(s, a) == i,
    decreases i - a,
{
    if a < i {
        lemma_find_white_is(s, a + 1, i);
    }
}

pub proof fn lemma_find_text_is(s: Seq<char>, pat: Seq<char>, a: int, i: int)
    requires
        0 <= a <= i <= s.len(),
        forall|j: int| a <= j < i ==> !occurs_at(s, pat, j),
        i < s.len() ==> occurs_at(s, pat, i),
    ensures
        find_text(s, pat, a) == i,
    decreases i - a,
{
    if a < i {
        lemma_find_text_is(s, pat, a + 1, i);
    }
}

/// The two views of a cut.
pub open spec fn pair_view(r: Option<(&str, &str)>) -> Option<(Seq<char>, Seq<char>)> {
    match r {
        Some((a, b)) => Some((a@, b@)),
        None => None,
    }
}

/// `s` cut around the first whitespace character.
pub fn cut_white<'a>(s: &'a str) -> (r: Option<(&'a str, &'a str)>)
    ensures
        pair_view(r) == split_once_white(s@),
{
    let v: Vec<char> = chars_of(s);
    let n: usize = v.len();
    let mut i: usize = 0;
    while i < n && !is_white(v[i])
        invariant
            i <= n,
            n == v@.len(),
            forall|j: int| 0 <= j < i ==> !white(v@[j]),
        decreases n - i,
    {
        i = i + 1;
    }
    proof {
        lemma_find_white_is(s@, 0, i as int);
    }
    if i < n {
        let l: &'a str = s.substring_char(0, i);
        let r: &'a str = s.substring_char(i + 1, n);
        Some((l, r))
    } else {
        None
    }
}

/// `s` cut around the first `c`.
pub fn cut_char<'a>(s: &'a str, c: char) -> (r: Option<(&'a str, &'a str)>)
    ensures
        pair_view(r) == split_once_char(s@, c),
{
    let v: Vec<char> = chars_of(s);
    let n: usize = v.len();
    let mut i: usize = 0;
    while i < n && v[i] != c
        invariant
            i <= n,
            n == v@.len(),
            forall|j: int| 0 <= j < i ==> v@[j] != c,
        decreases n - i,
    {
        i = i + 1;
    }
    proof {
        lemma_find_char_is(s@, c, 0, i as int);
    }
    if i < n {
        let l: &'a str = s.substring_char(0, i);
        let r: &'a str = s.substring_char(i + 1, n);
        Some((l, r))
    } else {
        None
    }
}

fn occurs(v: &Vec<char>, p: &Vec<char>, i: usize) -> (r: bool)
    requires
        i <= v@.len(),
    ensures
        r == occurs_at(v@, p@, i as int),
{
    let n: usize = v.len();
    let m: usize = p.len();
    if n - i < m {
        return false;
    }
    let mut k: usize = 0;
    while k < m
        invariant
            k <= m,
            m == p@.len(),
            n == v@.len(),
            i + m <= n,
            forall|j: int| 0 <= j < k ==> v@[i + j] == p@[j],
        decreases m - k,
    {
        if v[i + k] != p[k] {
            proof {
                assert(v@.subrange(i as int, i + m)[k as int] != p@[k as int]);
            }
            return false;
        }
        k = k + 1;
    }
    proof {
        assert(v@.subrange(i as int, i + m) =~= p@);
    }
    true
}

/// `s` cut around the first `pat`.
pub fn cut_text<'a>(s: &'a str, pat: &str) -> (r: Option<(&'a str, &'a str)>)
    requires
        pat@.len() > 0,
    ensures
        pair_view(r) == split_once_text(s@, pat@),
{
    let v: Vec<char> = chars_of(s);
    let p: Vec<char> = chars_of(pat);
    let n: usize = v.len();
    let mut i: usize = 0;
    while i < n
        invariant
            i <= n,
            n == v@.len(),
            v@ == s@,
            p@ == pat@,
            pat@.len() > 0,
            forall|j: int| 0 <= j < i ==> !occurs_at(v@, p@, j),
        decreases n - i,
    {
        if occurs(&v, &p, i) {
            proof {
                lemma_find_text_is(s@, pat@, 0, i as int);
            }
            let l: &'a str = s.substring_char(0, i);
            let r: &'a str = s.substring_char(i + p.len(), n);
            return Some((l, r));
        }
        i = i + 1;
    }
    proof {
        lemma_find_text_is(s@, pat@, 0, n as int);
    }
    None
}

/// Does `pat` stand somewhere in `s`?
pub fn contains_text(s: &str, pat: &str) -> (r: bool)
    ensures
        r == has_text(s@, pat@),
{
    let v: Vec<char> = chars_of(s);
    let p: Vec<char> = chars_of(pat);
    let n: usize = v.len();
    let mut i: usize = 0;
    while i < n
        invariant
            i <= n,
            n == v@.len(),
            v@ == s@,
            p@ == pat@,
            forall|j: int| 0 <= j < i ==> !occurs_at(v@, p@, j),
        decreases n - i,
    {
        if occurs(&v, &p, i) {
            return true;
        }
        i = i + 1;
    }
    occurs(&v, &p, n)
}

pub fn is_digit(c: char) -> (r: bool)
    ensures
        r == digit(c),
{
    '0' <= c && c <= '9'
}

proof fn lemma_decimal_grows(s: Seq<char>, k: int)
    requires
        0 <= k <= s.len(),
    ensures
        decimal(s.take(k)) <= decimal(s),
    decreases s.len() - k,
{
    if k < s.len() {
        lemma_decimal_grows(s, k + 1);
        assert(s.take(k + 1).drop_last() =~= s.take(k));
    } else {
        assert(s.take(k) =~= s);
    }
}

/// The value of the decimal digits in `v` from `from` on, if it is at most
/// `max`.
fn digits_up_to(v: &Vec<char>, from: usize, max: u64) -> (r: Option<u64>)
    requires
        from <= v@.len(),
    ensures
        match r {
            Some(n) => {
                let d = v@.skip(from as int);
                d.len() > 0 && all_digits(d) && decimal(d) == n && n <= max
            },
            None => {
                let d = v@.skip(from as int);
                d.len() == 0 || !all_digits(d) || decimal(d) > max
            },
        },
{
    let n: usize = v.len();
    let ghost d = v@.skip(from as int);
    if from == n {
        return None;
    }
    let mut i: usize = from;
    let mut acc: u64 = 0;
    while i < n
        invariant
            from <= i <= n,
            n == v@.len(),
            d == v@.skip(from as int),
            forall|j: int| 0 <= j < i - from ==> digit(#[trigger] d[j]),
            acc == decimal(d.take(i - from)),
            acc <= max,
        decreases n - i,
    {
        let c: char = v[i];
        proof {
            assert(d[i - from] == c);
            assert(d.take(i - from + 1).drop_last() =~= d.take(i - from));
            lemma_decimal_grows(d, i - from + 1);
        }
        if !is_digit(c) {
            return None;
        }
        let x: u64 = (c as u32 - '0' as u32) as u64;
        match acc.checked_mul(10) {
            None => {
                return None;
            },
            Some(t) => {
                match t.checked_add(x) {
                    None => {
                        return None;
                    },
                    Some(u) => {
                        if u > max {
                            return None;
                        }
                        acc = u;
                    },
                }
            },
        }
        i = i + 1;
    }
    proof {
        assert(d.take(n - from) =~= d);
    }
    Some(acc)
}

/// Parse an unsigned number no larger than `max`.
pub fn parse_unsigned(s: &str, max: u64) -> (r: Option<u64>)
    ensures
        match r {
            Some(n) => unsigned(s@, max as nat) == Some(n as nat),
            None => unsigned(s@, max as nat) is None,
        },
{
    let v: Vec<char> = chars_of(s);
    let from: usize = if v.len() > 0 && v[0] == '+' {
        1
    } else {
        0
    };
    proof {
        assert(v@.skip(from as int) =~= unsigned_digits(s@));
    }
    digits_up_to(&v, from, max)
}

/// Parse a signed 32-bit number.
pub fn parse_i32(s: &str) -> (r: Option<i32>)
    ensures
        match r {
            Some(n) => signed(s@) == Some(n as int),
            None => signed(s@) is None,
        },
{
    let v: Vec<char> = chars_of(s);
    if v.len() > 0 && v[0] == '-' {
        proof {
            assert(v@.skip(1) =~= s@.drop_first());
        }
        match digits_up_to(&v, 1, 2147483648) {
            Some(n) => Some((-(n as i64)) as i32),
            None => None,
        }
    } else {
        match parse_unsigned(s, 2147483647) {
            Some(n) => Some(n as i32),
            None => None,
        }
    }
}

fn push_nat(m: &mut String, n: u64)
    ensures
        final(m)@ == old(m)@ + nat_text(n as nat),
    decreases n,
{
    let c: char = (48u8 + (n % 10) as u8) as char;
    if n >= 10 {
        push_nat(m, n / 10);
    }
    m.push(c);
}

/// An unsigned number the way it is displayed.
pub fn show_u64(n: u64) -> (r: String)
    ensures
        r@ == int_text(n as int),
{
    let mut m: String = String::new();
    push_nat(&mut m, n);
    proof {
        assert(m@ =~= int_text(n as int));
    }
    m
}

/// A signed number the way it is displayed.
pub fn show_i64(n: i64) -> (r: String)
    ensures
        r@ == int_text(n as int),
{
    let mut m: String = String::new();
    if n < 0 {
        m.push('-');
        let k: i128 = -(n as i128);
        push_nat(&mut m, k as u64);
        proof {
            assert(m@ =~= int_text(n as int));
        }
    } else {
        push_nat(&mut m, n as u64);
        proof {
            assert(m@ =~= int_text(n as int));
        }
    }
    m
}

} // verus!
