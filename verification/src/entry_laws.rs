//! What desktop entries come to, said of their files, command lines and
//! directories themselves.
use vstd::prelude::*;

use crate::desktop_entry;
use crate::desktop_entry::{CachedEntryOf, EntryFieldsOf};
use crate::text;
use crate::text_laws;

verus! {

// ── Command lines ────────────────────────────────────────────────────

/// Inside quotes a backslash before a quote, a backquote, a dollar or a
/// backslash gives that character, and before any other it stays.
pub proof fn lemma_escapes_inside_quotes(c: char)
    ensures
        desktop_entry::escapable(c) <==> c as int == 34 || c as int == 96 || c as int == 36
            || c as int == 92,
        c as int == 34 || c as int == 96 || c as int == 36 || c as int == 92
            ==> desktop_entry::tokens_of(seq!['"', '\\', c, '"']) == Some(seq![seq![c]]),
        !(c as int == 34 || c as int == 96 || c as int == 36 || c as int == 92)
            ==> desktop_entry::tokens_of(seq!['"', '\\', c, '"']) == Some(seq![seq!['\\', c]]),
{
    reveal_with_fuel(desktop_entry::tokens_from, 6);
    let e = Seq::<char>::empty();
    assert(e.push(c) == seq![c]);
    assert(e.push('\\') == seq!['\\']);
    assert(seq!['\\'].push(c) == seq!['\\', c]);
}

/// Outside quotes a backslash is a character like any other, and a quote in the
/// middle of a word does not end it.
pub proof fn lemma_outside_quotes(c: char)
    requires
        !text::white(c),
        c != '"',
    ensures
        desktop_entry::tokens_of(seq!['\\', c]) == Some(seq![seq!['\\', c]]),
        desktop_entry::tokens_of(seq![c, '"', ' ', '"', c]) == Some(seq![seq![c, ' ', c]]),
        desktop_entry::tokens_of(seq![c, ' ', c]) == Some(seq![seq![c], seq![c]]),
        desktop_entry::tokens_of(seq!['"', '"']) == Some(seq![Seq::<char>::empty()]),
        desktop_entry::tokens_of(seq!['"', c]) is None,
{
    reveal_with_fuel(desktop_entry::tokens_from, 7);
    let e = Seq::<char>::empty();
    assert(e.push('\\').push(c) == seq!['\\', c]);
    assert(e.push(c).push(' ').push(c) == seq![c, ' ', c]);
    assert(e.push(c) == seq![c]);
    assert(seq![seq![c]] + seq![seq![c]] == seq![seq![c], seq![c]]);
    text_laws::lemma_white_characters('\\');
    text_laws::lemma_white_characters(' ');
}

/// Is this the letter of a field code?
pub open spec fn field_letter(c: char) -> bool {
    let n = c as int;
    ||| n == 102 || n == 70 || n == 117 || n == 85
    ||| n == 105 || n == 99 || n == 107
    ||| n == 100 || n == 68 || n == 110 || n == 78 || n == 118 || n == 109
}

/// A field code alone is no argument. Behind another character it is left out,
/// a doubled percent sign is one, and any other percent sign stays.
pub proof fn lemma_field_codes(a: char, c: char)
    requires
        a != '%',
    ensures
        desktop_entry::token_value(seq!['%', c]) is None <==> field_letter(c),
        field_letter(c) ==> desktop_entry::token_value(seq![a, '%', c]) == Some(seq![a]),
        c == '%' ==> desktop_entry::token_value(seq![a, '%', c]) == Some(seq![a, '%']),
        c != '%' && !field_letter(c) ==> desktop_entry::token_value(seq![a, '%', c]) == Some(
            seq![a, '%', c],
        ),
        desktop_entry::token_value(seq![a, '%']) == Some(seq![a, '%']),
{
    reveal_with_fuel(desktop_entry::without_codes, 5);
    let e = Seq::<char>::empty();
    assert(seq![a] + e == seq![a]);
    assert(seq!['%'] + e == seq!['%']);
    assert(seq![c] + e == seq![c]);
    assert(seq![a] + seq!['%'] == seq![a, '%']);
    assert(seq!['%'] + seq![c] == seq!['%', c]);
    assert(seq![a] + seq!['%', c] == seq![a, '%', c]);
}

/// How many of the first words are arguments.
pub open spec fn arguments_among(tokens: Seq<Seq<char>>, n: int) -> nat
    decreases n,
{
    if n <= 0 {
        0
    } else {
        arguments_among(tokens, n - 1) + (if tokens[n - 1].len() == 2 && tokens[n - 1][0] == '%'
            && field_letter(tokens[n - 1][1]) {
            0nat
        } else {
            1
        })
    }
}

proof fn lemma_arguments_among_prefix(a: Seq<Seq<char>>, b: Seq<Seq<char>>, n: int)
    requires
        n <= a.len(),
        n <= b.len(),
        forall|j: int| 0 <= j < n ==> a[j] == b[j],
    ensures
        arguments_among(a, n) == arguments_among(b, n),
    decreases n,
{
    if n > 0 {
        lemma_arguments_among_prefix(a, b, n - 1);
    }
}

/// Every word that is not a bare field code is an argument, in order, and a word
/// without percent signs is the argument itself.
pub proof fn lemma_words_become_arguments(tokens: Seq<Seq<char>>, i: int)
    ensures
        ({
            let (out, k) = (
                desktop_entry::arguments(tokens),
                arguments_among(tokens, i) as int,
            );
            &&& out.len() == arguments_among(tokens, tokens.len() as int)
            &&& 0 <= i < tokens.len() ==> match desktop_entry::token_value(tokens[i]) {
                Some(v) => k < out.len() && out[k] == v,
                None => tokens[i].len() == 2 && tokens[i][0] == '%' && field_letter(tokens[i][1]),
            }
        }),
    decreases tokens.len(),
{
    if tokens.len() > 0 {
        let front = tokens.drop_last();
        lemma_words_become_arguments(front, i);
        lemma_arguments_among_prefix(front, tokens, front.len() as int);
        if 0 <= i < front.len() {
            lemma_arguments_among_prefix(front, tokens, i);
        }
    }
}

// ── Entries ──────────────────────────────────────────────────────────

/// A file is an entry if and only if its name ends in `.desktop` behind at least
/// one character; its id is what comes before that.
pub proof fn lemma_entry_files(id: Seq<char>, name: Seq<char>)
    ensures
        desktop_entry::entry_file(id + ".desktop"@) <==> id.len() > 0,
        desktop_entry::stem_of(id + ".desktop"@) == id,
        desktop_entry::entry_file(name) ==> name == desktop_entry::stem_of(name) + ".desktop"@,
{
    reveal_strlit(".desktop");
    let n = id + ".desktop"@;
    assert(n.skip(n.len() - 8) == ".desktop"@);
    assert(n.take(n.len() - 8) == id);
    if desktop_entry::entry_file(name) {
        assert(name == name.take(name.len() - 8) + name.skip(name.len() - 8));
    }
}

/// An entry is known by its id and its window class, shows its name or its id
/// where it has none, and is started by the command of its line; it is offered
/// unless it is hidden. One for a terminal, or without a command, cannot be
/// launched.
pub proof fn lemma_offered_entries(
    entries: Seq<CachedEntryOf<Seq<char>, Seq<Seq<char>>>>,
    id: Seq<char>,
    f: EntryFieldsOf<Seq<char>>,
)
    ensures
        desktop_entry::offered(entries, id, None) == entries,
        f.hidden ==> desktop_entry::offered(entries, id, Some(f)) == entries,
        !f.hidden ==> {
            let all = desktop_entry::offered(entries, id, Some(f));
            let e = all.last();
            &&& all.len() == entries.len() + 1 && all.drop_last() == entries
            &&& e.stem == id
            &&& e.startup_wm_class == f.startup_wm_class
            &&& f.name is Some ==> Some(e.display_name) == f.name
            &&& f.name is None ==> e.display_name == id
            &&& e.terminal == f.terminal
            &&& f.exec_line is None ==> e.command.len() == 0
            &&& f.exec_line is Some ==> e.command == desktop_entry::command_of(f.exec_line->0)
            &&& desktop_entry::can_launch(e) <==> !f.terminal && e.command.len() > 0
        },
{
    if !f.hidden {
        let all = desktop_entry::offered(entries, id, Some(f));
        assert(all.drop_last() == entries);
    }
}

/// A line whose quotes do not close is no command, and an empty one is none
/// either.
pub proof fn lemma_broken_lines(line: Seq<char>)
    ensures
        desktop_entry::tokens_of(line) is None ==> desktop_entry::command_of(line).len() == 0,
        desktop_entry::tokens_of(line) matches Some(t) ==> desktop_entry::command_of(line)
            == desktop_entry::arguments(t),
        desktop_entry::command_of(Seq::empty()).len() == 0,
{
}

/// Ids are compared letter by letter without regard to the case of the first
/// letters of Unicode, and of those alone.
pub proof fn lemma_ids_without_case(a: Seq<char>, b: Seq<char>)
    ensures
        desktop_entry::same_ignoring_case(a, a),
        desktop_entry::same_ignoring_case(a, b) == desktop_entry::same_ignoring_case(b, a),
        a.len() != b.len() ==> !desktop_entry::same_ignoring_case(a, b),
        desktop_entry::same_ignoring_case(a, b) ==> forall|i: int|
            0 <= i < a.len() ==> (#[trigger] a[i] == b[i] || a[i] as int - b[i] as int == 32
                || b[i] as int - a[i] as int == 32),
        (forall|i: int|
            0 <= i < a.len() ==> 'A' <= #[trigger] a[i] && a[i] <= 'Z' && b[i] as int == a[i] as int
                + 32) && a.len() == b.len() ==> desktop_entry::same_ignoring_case(a, b),
        (exists|i: int|
            0 <= i < a.len() && a[i] != b[i] && !('A' <= a[i] && a[i] <= 'Z') && !('A' <= b[i]
                && b[i] <= 'Z')) ==> !desktop_entry::same_ignoring_case(a, b),
{
    if desktop_entry::same_ignoring_case(a, b) {
        assert forall|i: int| 0 <= i < b.len() implies text::ascii_lower(#[trigger] b[i])
            == text::ascii_lower(a[i]) by {
            assert(text::ascii_lower(a[i]) == text::ascii_lower(b[i]));
        }
    }
    if desktop_entry::same_ignoring_case(b, a) {
        assert forall|i: int| 0 <= i < a.len() implies text::ascii_lower(#[trigger] a[i])
            == text::ascii_lower(b[i]) by {
            assert(text::ascii_lower(b[i]) == text::ascii_lower(a[i]));
        }
    }
}

/// File names are in the order of their first different character, and a name
/// comes before those that go on from it.
pub proof fn lemma_order_of_names(
    p: Seq<char>,
    c: char,
    x: Seq<char>,
    d: char,
    y: Seq<char>,
)
    ensures
        c != d ==> (desktop_entry::text_le(p + seq![c] + x, p + seq![d] + y) <==> (c as int) < (
        d as int)),
        desktop_entry::text_le(p, p + x),
        x.len() > 0 ==> !desktop_entry::text_le(p + x, p),
    decreases p.len(),
{
    let (a, b) = (p + seq![c] + x, p + seq![d] + y);
    if p.len() > 0 {
        let q = p.drop_first();
        lemma_order_of_names(q, c, x, d, y);
        assert(a.drop_first() == q + seq![c] + x);
        assert(b.drop_first() == q + seq![d] + y);
        assert((p + x).drop_first() == q + x);
        assert(a[0] == p[0] && b[0] == p[0] && (p + x)[0] == p[0]);
    } else {
        assert(a[0] == c && b[0] == d);
        assert(p + x == x);
    }
}

// ── Directories ──────────────────────────────────────────────────────

/// How many of the first paths begin at the root.
pub open spec fn rooted_among(bases: Seq<Seq<char>>, n: int) -> nat
    decreases n,
{
    if n <= 0 {
        0
    } else {
        rooted_among(bases, n - 1) + (if bases[n - 1].len() > 0 && bases[n - 1][0] == '/' {
            1nat
        } else {
            0
        })
    }
}

proof fn lemma_rooted_among_prefix(a: Seq<Seq<char>>, b: Seq<Seq<char>>, n: int)
    requires
        n <= a.len(),
        n <= b.len(),
        forall|j: int| 0 <= j < n ==> a[j] == b[j],
    ensures
        rooted_among(a, n) == rooted_among(b, n),
    decreases n,
{
    if n > 0 {
        lemma_rooted_among_prefix(a, b, n - 1);
    }
}

/// Each data directory that begins at the root has its directory of
/// applications, in order, and others have none.
pub proof fn lemma_application_directories(bases: Seq<Seq<char>>, i: int)
    ensures
        ({
            let (out, k) = (
                desktop_entry::application_dirs(bases),
                rooted_among(bases, i) as int,
            );
            &&& out.len() == rooted_among(bases, bases.len() as int)
            &&& 0 <= i < bases.len() && bases[i].len() > 0 && bases[i][0] == '/' ==> k < out.len()
                && out[k] == (if bases[i].last() == '/' {
                bases[i] + "applications"@
            } else {
                bases[i] + "/applications"@
            })
        }),
    decreases bases.len(),
{
    reveal_strlit("/");
    reveal_strlit("applications");
    reveal_strlit("/applications");
    if bases.len() > 0 {
        let front = bases.drop_last();
        lemma_application_directories(front, i);
        lemma_rooted_among_prefix(front, bases, front.len() as int);
        if 0 <= i < front.len() {
            lemma_rooted_among_prefix(front, bases, i);
        }
        let b = bases.last();
        assert(b + "/"@ + "applications"@ == b + "/applications"@);
    }
}

/// The user's own directory comes first: the one that is set, if it begins at the
/// root, or the usual one under the home directory. The system's come after it,
/// or the usual two where none are set.
pub proof fn lemma_order_of_directories(
    data_home: Option<Seq<char>>,
    home: Option<Seq<char>>,
    data_dirs: Option<Seq<char>>,
)
    ensures
        ({
            let dirs = desktop_entry::dirs_of(data_home, home, data_dirs);
            let set = data_home is Some && data_home->0.len() > 0 && data_home->0[0] == '/';
            let system = desktop_entry::application_dirs(
                text::split(
                    if data_dirs is Some && data_dirs->0.len() > 0 {
                        data_dirs->0
                    } else {
                        "/usr/local/share:/usr/share"@
                    },
                    ':',
                ),
            );
            let own: nat = if set || home is Some {
                1
            } else {
                0
            };
            &&& dirs.len() == own + system.len()
            &&& dirs.skip(own as int) == system
            &&& set && data_home->0.last() != '/' ==> dirs[0] == data_home->0 + "/applications"@
            &&& !set && home is Some && home->0.len() > 0 && home->0.last() != '/' ==> dirs[0]
                == home->0 + "/.local/share/applications"@
        }),
{
    reveal_strlit("/");
    reveal_strlit(".local/share");
    reveal_strlit("applications");
    reveal_strlit("/applications");
    reveal_strlit("/.local/share/applications");
    if let Some(d) = data_home {
        assert(d + "/"@ + "applications"@ == d + "/applications"@);
    }
    if let Some(h) = home {
        let s = h + "/"@ + ".local/share"@;
        assert(s.len() > 0 && s.last() == 'e');
        assert(s + "/"@ + "applications"@ == h + "/.local/share/applications"@);
    }
}

} // verus!
