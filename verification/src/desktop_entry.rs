//! Resolving a window's `app_id` to a launchable desktop entry, and the command
//! that relaunches it, from its `Exec=` line.
//!
//! Only apps that resolve to an entry can be suspended: anything else would
//! leave a stand-in that can never relaunch. Resolution never uses substring or
//! glob matching: a wrong app must never launch in place of the intended one.
//! Terminal entries count as not there: their relaunch would open a terminal,
//! not the app.
use vstd::prelude::*;

use crate::config::parse;
use crate::config::settings;
use crate::config::types;
use crate::text;
use crate::text::{chars_of, is_white, text_eq};

verus! {

// ── Exec lines ───────────────────────────────────────────────────────

/// Characters that a backslash escapes inside double quotes.
pub open spec fn escapable(c: char) -> bool {
    c == '"' || c == '`' || c == '$' || c == '\\'
}

/// The tokens of `s` from `i` on, when `current` has been read of a token that
/// has begun (`begun`), inside quotes or not: whitespace outside quotes
/// separates, and an unmatched quote makes the line meaningless.
pub open spec fn tokens_from(
    s: Seq<char>,
    i: int,
    current: Seq<char>,
    begun: bool,
    quoted: bool,
) -> Option<Seq<Seq<char>>>
    decreases s.len() - i,
{
    if i >= s.len() {
        if quoted {
            None
        } else if begun {
            Some(seq![current])
        } else {
            Some(Seq::empty())
        }
    } else if quoted {
        if s[i] == '"' {
            tokens_from(s, i + 1, current, begun, false)
        } else if s[i] == '\\' {
            if i + 1 < s.len() && escapable(s[i + 1]) {
                tokens_from(s, i + 2, current.push(s[i + 1]), begun, true)
            } else {
                tokens_from(s, i + 1, current.push('\\'), begun, true)
            }
        } else {
            tokens_from(s, i + 1, current.push(s[i]), begun, true)
        }
    } else if s[i] == '"' {
        tokens_from(s, i + 1, current, true, true)
    } else if text::white(s[i]) {
        if begun {
            after(seq![current], tokens_from(s, i + 1, Seq::empty(), false, false))
        } else {
            tokens_from(s, i + 1, current, false, false)
        }
    } else {
        tokens_from(s, i + 1, current.push(s[i]), true, false)
    }
}

/// `head` followed by the rest, where there is one.
pub open spec fn after(head: Seq<Seq<char>>, rest: Option<Seq<Seq<char>>>) -> Option<
    Seq<Seq<char>>,
> {
    match rest {
        Some(r) => Some(head + r),
        None => None,
    }
}

/// The tokens of a line.
pub open spec fn tokens_of(s: Seq<char>) -> Option<Seq<Seq<char>>> {
    tokens_from(s, 0, Seq::empty(), false, false)
}

fn is_escapable(c: char) -> (r: bool)
    ensures
        r == escapable(c),
{
    c == '"' || c == '`' || c == '$' || c == '\\'
}

/// Split on whitespace outside double quotes; inside quotes a backslash
/// escapes `"`, `` ` ``, `$` and `\`. `None` on an unmatched quote.
pub fn tokenize(s: &str) -> (r: Option<Vec<String>>)
    ensures
        match r {
            Some(v) => tokens_of(s@) == Some(text::string_views(v@)),
            None => tokens_of(s@) is None,
        },
{
    let v: Vec<char> = chars_of(s);
    let n: usize = v.len();
    let mut tokens: Vec<String> = Vec::new();
    let mut current: String = String::new();
    let mut begun: bool = false;
    let mut quoted: bool = false;
    let mut i: usize = 0;
    proof {
        let rest = tokens_from(s@, 0, current@, begun, quoted);
        assert(text::string_views(tokens@) =~= Seq::<Seq<char>>::empty());
        if let Some(r) = rest {
            assert(Seq::<Seq<char>>::empty() + r =~= r);
        }
    }
    while i < n
        invariant
            i <= n,
            n == v@.len(),
            v@ == s@,
            !begun && !quoted ==> current@ == Seq::<char>::empty(),
            quoted ==> begun,
            tokens_of(s@) == after(
                text::string_views(tokens@),
                tokens_from(s@, i as int, current@, begun, quoted),
            ),
        decreases n - i,
    {
        let c: char = v[i];
        if quoted {
            if c == '"' {
                quoted = false;
                i = i + 1;
            } else if c == '\\' {
                if i < n - 1 && is_escapable(v[i + 1]) {
                    current.push(v[i + 1]);
                    i = i + 2;
                } else {
                    current.push('\\');
                    i = i + 1;
                }
            } else {
                current.push(c);
                i = i + 1;
            }
        } else if c == '"' {
            begun = true;
            quoted = true;
            i = i + 1;
        } else if is_white(c) {
            if begun {
                let ghost before = tokens@;
                let ghost token = current@;
                let ghost rest = tokens_from(s@, i + 1, Seq::empty(), false, false);
                tokens.push(current);
                current = String::new();
                begun = false;
                proof {
                    assert(text::string_views(tokens@) =~= text::string_views(before).push(token));
                    if let Some(r) = rest {
                        assert(text::string_views(before) + (seq![token] + r)
                            =~= text::string_views(before).push(token) + r);
                    }
                }
            }
            i = i + 1;
        } else {
            begun = true;
            current.push(c);
            i = i + 1;
        }
    }
    if quoted {
        return None;
    }
    let ghost before = tokens@;
    if begun {
        let ghost token = current@;
        tokens.push(current);
        proof {
            assert(text::string_views(tokens@) =~= text::string_views(before) + seq![token]);
        }
    } else {
        proof {
            assert(text::string_views(before) + Seq::<Seq<char>>::empty() =~= text::string_views(
                before,
            ));
        }
    }
    Some(tokens)
}

/// The letters of the field codes.
pub open spec fn code_letter(c: char) -> bool {
    c == 'f' || c == 'F' || c == 'u' || c == 'U' || c == 'i' || c == 'c' || c == 'k' || c == 'd'
        || c == 'D' || c == 'n' || c == 'N' || c == 'v' || c == 'm'
}

fn is_code_letter(c: char) -> (r: bool)
    ensures
        r == code_letter(c),
{
    c == 'f' || c == 'F' || c == 'u' || c == 'U' || c == 'i' || c == 'c' || c == 'k' || c == 'd'
        || c == 'D' || c == 'n' || c == 'N' || c == 'v' || c == 'm'
}

/// Is a token exactly a field code?
pub open spec fn bare_code(t: Seq<char>) -> bool {
    t.len() == 2 && t[0] == '%' && code_letter(t[1])
}

/// A token from `i` on with its field codes taken out and `%%` as one percent
/// sign.
pub open spec fn without_codes(t: Seq<char>, i: int) -> Seq<char>
    decreases t.len() - i,
{
    if i >= t.len() {
        Seq::empty()
    } else if t[i] != '%' {
        seq![t[i]] + without_codes(t, i + 1)
    } else if i + 1 < t.len() && t[i + 1] == '%' {
        seq!['%'] + without_codes(t, i + 2)
    } else if i + 1 < t.len() && code_letter(t[i + 1]) {
        without_codes(t, i + 2)
    } else {
        seq!['%'] + without_codes(t, i + 1)
    }
}

/// What a token becomes: nothing if it is exactly a field code.
pub open spec fn token_value(t: Seq<char>) -> Option<Seq<char>> {
    if bare_code(t) {
        None
    } else {
        Some(without_codes(t, 0))
    }
}

/// Drop a token that is exactly a field code; inside larger tokens, codes
/// substitute as empty and `%%` collapses to a literal `%`, so `%%f` stays
/// `%f`.
pub fn field_code(token: &str) -> (r: Option<String>)
    ensures
        types::opt_text(r) == token_value(token@),
{
    let v: Vec<char> = chars_of(token);
    let n: usize = v.len();
    if n == 2 && v[0] == '%' && is_code_letter(v[1]) {
        return None;
    }
    let mut out: String = String::new();
    let mut i: usize = 0;
    proof {
        assert(out@ + without_codes(token@, 0) =~= without_codes(token@, 0));
    }
    while i < n
        invariant
            i <= n,
            n == v@.len(),
            v@ == token@,
            without_codes(token@, 0) == out@ + without_codes(token@, i as int),
        decreases n - i,
    {
        let ghost before = out@;
        let ghost rest1 = without_codes(token@, i + 1);
        let ghost rest2 = without_codes(token@, i + 2);
        let c: char = v[i];
        if c != '%' {
            out.push(c);
            proof {
                assert(before + (seq![c] + rest1) =~= before.push(c) + rest1);
            }
            i = i + 1;
        } else if i < n - 1 && v[i + 1] == '%' {
            out.push('%');
            proof {
                assert(before + (seq!['%'] + rest2) =~= before.push('%') + rest2);
            }
            i = i + 2;
        } else if i < n - 1 && is_code_letter(v[i + 1]) {
            i = i + 2;
        } else {
            out.push('%');
            proof {
                assert(before + (seq!['%'] + rest1) =~= before.push('%') + rest1);
            }
            i = i + 1;
        }
    }
    proof {
        assert(out@ + Seq::<char>::empty() =~= out@);
    }
    Some(out)
}

/// The arguments that tokens stand for, in order.
pub open spec fn arguments(tokens: Seq<Seq<char>>) -> Seq<Seq<char>>
    decreases tokens.len(),
{
    if tokens.len() == 0 {
        Seq::empty()
    } else {
        match token_value(tokens.last()) {
            Some(a) => arguments(tokens.drop_last()).push(a),
            None => arguments(tokens.drop_last()),
        }
    }
}

/// The command of an `Exec=` value: a malformed one yields nothing rather than
/// a half-parsed command.
pub open spec fn command_of(line: Seq<char>) -> Seq<Seq<char>> {
    match tokens_of(line) {
        Some(t) => arguments(t),
        None => Seq::empty(),
    }
}

/// Parse an `Exec=` value into a command: double quotes quote, application
/// field codes are dropped, `%%` is a literal `%`. No URI or icon is
/// substituted: a relaunch opens the app bare.
pub fn parse_exec_line(line: &str) -> (r: Vec<String>)
    ensures
        text::string_views(r@) == command_of(line@),
{
    let mut out: Vec<String> = Vec::new();
    proof {
        assert(text::string_views(out@) =~= Seq::<Seq<char>>::empty());
    }
    match tokenize(line) {
        None => out,
        Some(tokens) => {
            let n: usize = tokens.len();
            let ghost all = text::string_views(tokens@);
            let mut i: usize = 0;
            while i < n
                invariant
                    i <= n,
                    n == tokens@.len(),
                    all == text::string_views(tokens@),
                    text::string_views(out@) == arguments(all.take(i as int)),
                decreases n - i,
            {
                let ghost before = out@;
                proof {
                    assert(all.take(i + 1).drop_last() =~= all.take(i as int));
                    assert(all.take(i + 1).last() == tokens@[i as int]@);
                }
                if let Some(a) = field_code(tokens[i].as_str()) {
                    out.push(a);
                    proof {
                        assert(text::string_views(out@) =~= text::string_views(before).push(a@));
                    }
                }
                i = i + 1;
            }
            proof {
                assert(all.take(n as int) =~= all);
            }
            out
        },
    }
}

// ── Scanning ─────────────────────────────────────────────────────────

/// What an entry file says, as far as it matters here.
#[derive(Debug, PartialEq, Eq)]
pub struct EntryFieldsOf<S> {
    pub hidden: bool,
    pub name: Option<S>,
    pub startup_wm_class: Option<S>,
    pub exec_line: Option<S>,
    pub terminal: bool,
}

pub type EntryFields = EntryFieldsOf<String>;

impl View for EntryFieldsOf<String> {
    type V = EntryFieldsOf<Seq<char>>;

    open spec fn view(&self) -> EntryFieldsOf<Seq<char>> {
        EntryFieldsOf {
            hidden: self.hidden,
            name: types::opt_text(self.name),
            startup_wm_class: types::opt_text(self.startup_wm_class),
            exec_line: types::opt_text(self.exec_line),
            terminal: self.terminal,
        }
    }
}

/// Model of optional entry fields.
pub open spec fn opt_fields(o: Option<EntryFields>) -> Option<EntryFieldsOf<Seq<char>>> {
    match o {
        Some(f) => Some(f@),
        None => None,
    }
}

/// What the contents of the entry file of a given name say; none where they
/// are malformed.
pub uninterp spec fn decoded(file_name: Seq<char>, contents: Seq<char>) -> Option<
    EntryFieldsOf<Seq<char>>,
>;

/// `DesktopEntry::from_str`, and its `hidden`, `name`, `startup_wm_class`,
/// `exec` and `terminal` of the result: what an entry file says depends on its
/// name and contents alone. Names are not localized.
#[verifier::external_body]
fn decode_entry(file_name: &str, contents: &str) -> (r: Option<EntryFields>)
    ensures
        opt_fields(r) == decoded(file_name@, contents@),
{
    let entry = freedesktop_desktop_entry::DesktopEntry::from_str(
        file_name,
        contents,
        None::<&[&str]>,
    ).ok()?;
    Some(EntryFields {
        hidden: entry.hidden(),
        name: entry.name(&[] as &[&str]).map(|n| n.into_owned()),
        startup_wm_class: entry.startup_wm_class().map(str::to_string),
        exec_line: entry.exec().map(str::to_string),
        terminal: entry.terminal(),
    })
}

/// A file of an application directory; its contents are absent where it could
/// not be read.
#[derive(Debug, PartialEq, Eq)]
pub struct ScannedFileOf<S> {
    pub file_name: S,
    pub contents: Option<S>,
}

pub type ScannedFile = ScannedFileOf<String>;

impl View for ScannedFileOf<String> {
    type V = ScannedFileOf<Seq<char>>;

    open spec fn view(&self) -> ScannedFileOf<Seq<char>> {
        ScannedFileOf { file_name: self.file_name@, contents: types::opt_text(self.contents) }
    }
}

/// An application directory: when it was last modified, in nanoseconds, and
/// its files in any order (none where it could not be read).
#[derive(Debug, PartialEq, Eq)]
pub struct ScannedDir {
    pub mtime: Option<i128>,
    pub files: Vec<ScannedFile>,
}

/// Models of the files of a directory.
pub open spec fn file_models(v: Seq<ScannedFile>) -> Seq<ScannedFileOf<Seq<char>>> {
    v.map_values(|f: ScannedFile| f@)
}

/// `a` comes before `b` or is the same, character by character.
pub open spec fn text_le(a: Seq<char>, b: Seq<char>) -> bool
    decreases a.len(),
{
    if a.len() == 0 {
        true
    } else if b.len() == 0 {
        false
    } else if a[0] != b[0] {
        a[0] < b[0]
    } else {
        text_le(a.drop_first(), b.drop_first())
    }
}

/// A list in order of file names, with one more file put where it belongs.
pub open spec fn inserted(
    sorted: Seq<ScannedFileOf<Seq<char>>>,
    f: ScannedFileOf<Seq<char>>,
) -> Seq<ScannedFileOf<Seq<char>>>
    decreases sorted.len(),
{
    if sorted.len() == 0 {
        seq![f]
    } else if text_le(sorted.last().file_name, f.file_name) {
        sorted.push(f)
    } else {
        inserted(sorted.drop_last(), f).push(sorted.last())
    }
}

/// The files in order of their names.
pub open spec fn in_order(files: Seq<ScannedFileOf<Seq<char>>>) -> Seq<ScannedFileOf<Seq<char>>>
    decreases files.len(),
{
    if files.len() == 0 {
        Seq::empty()
    } else {
        inserted(in_order(files.drop_last()), files.last())
    }
}

/// Is this the name of an entry file?
pub open spec fn entry_file(name: Seq<char>) -> bool {
    name.len() > 8 && name.skip(name.len() - 8) == ".desktop"@
}

/// The id of an entry file: its name without the suffix.
pub open spec fn stem_of(name: Seq<char>) -> Seq<char> {
    name.take(name.len() - 8)
}

/// A cached entry.
#[derive(Debug, PartialEq, Eq)]
pub struct CachedEntryOf<S, L> {
    /// File name without the suffix: both the launch key and the exact-match
    /// resolution key.
    pub stem: S,
    pub startup_wm_class: Option<S>,
    pub display_name: S,
    /// The command with field codes stripped; empty when there is none.
    pub command: L,
    pub terminal: bool,
}

pub type CachedEntry = CachedEntryOf<String, Vec<String>>;

/// Model of a cached entry.
pub type EntryModel = CachedEntryOf<Seq<char>, Seq<Seq<char>>>;

impl View for CachedEntryOf<String, Vec<String>> {
    type V = CachedEntryOf<Seq<char>, Seq<Seq<char>>>;

    open spec fn view(&self) -> CachedEntryOf<Seq<char>, Seq<Seq<char>>> {
        CachedEntryOf {
            stem: self.stem@,
            startup_wm_class: types::opt_text(self.startup_wm_class),
            display_name: self.display_name@,
            command: text::string_views(self.command@),
            terminal: self.terminal,
        }
    }
}

/// An entry is only offered if relaunching it opens the app: it has a command
/// and is no terminal wrapper.
pub open spec fn can_launch(e: CachedEntryOf<Seq<char>, Seq<Seq<char>>>) -> bool {
    !e.terminal && e.command.len() > 0
}

impl CachedEntryOf<String, Vec<String>> {
    /// Is the entry offered at all?
    pub fn launchable(&self) -> (r: bool)
        ensures
            r == can_launch(self@),
    {
        !self.terminal && self.command.len() > 0
    }
}

/// The entry of the given id that fields stand for.
pub open spec fn entry_of(stem: Seq<char>, f: EntryFieldsOf<Seq<char>>) -> CachedEntryOf<
    Seq<char>,
    Seq<Seq<char>>,
> {
    CachedEntryOf {
        stem,
        startup_wm_class: f.startup_wm_class,
        display_name: match f.name {
            Some(n) => n,
            None => stem,
        },
        command: match f.exec_line {
            Some(x) => command_of(x),
            None => Seq::empty(),
        },
        terminal: f.terminal,
    }
}

/// The entries with one more, unless it is hidden or there is none.
pub open spec fn offered(
    entries: Seq<CachedEntryOf<Seq<char>, Seq<Seq<char>>>>,
    stem: Seq<char>,
    fields: Option<EntryFieldsOf<Seq<char>>>,
) -> Seq<CachedEntryOf<Seq<char>, Seq<Seq<char>>>> {
    match fields {
        Some(e) => if e.hidden {
            entries
        } else {
            entries.push(entry_of(stem, e))
        },
        None => entries,
    }
}

/// The claimed ids and the entries after one more file. An id that is claimed
/// already shadows the file; a hidden, malformed or unreadable file claims its
/// id but is not offered.
pub open spec fn scan_step(
    st: (Seq<Seq<char>>, Seq<CachedEntryOf<Seq<char>, Seq<Seq<char>>>>),
    f: ScannedFileOf<Seq<char>>,
) -> (Seq<Seq<char>>, Seq<CachedEntryOf<Seq<char>, Seq<Seq<char>>>>) {
    let (claimed, entries) = st;
    let stem = stem_of(f.file_name);
    if !entry_file(f.file_name) || claimed.contains(stem) {
        st
    } else {
        let fields = match f.contents {
            Some(c) => decoded(f.file_name, c),
            None => None,
        };
        (claimed.push(stem), offered(entries, stem, fields))
    }
}

/// The claimed ids and the entries after the files of a directory.
pub open spec fn scan_files(
    st: (Seq<Seq<char>>, Seq<CachedEntryOf<Seq<char>, Seq<Seq<char>>>>),
    files: Seq<ScannedFileOf<Seq<char>>>,
) -> (Seq<Seq<char>>, Seq<CachedEntryOf<Seq<char>, Seq<Seq<char>>>>)
    decreases files.len(),
{
    if files.len() == 0 {
        st
    } else {
        scan_step(scan_files(st, files.drop_last()), files.last())
    }
}

/// The claimed ids and the entries after all directories: earlier ones take
/// precedence.
pub open spec fn scan_dirs(dirs: Seq<ScannedDir>) -> (
    Seq<Seq<char>>,
    Seq<CachedEntryOf<Seq<char>, Seq<Seq<char>>>>,
)
    decreases dirs.len(),
{
    if dirs.len() == 0 {
        (Seq::empty(), Seq::empty())
    } else {
        scan_files(scan_dirs(dirs.drop_last()), in_order(file_models(dirs.last().files@)))
    }
}

fn text_at_most(a: &Vec<char>, b: &Vec<char>, i: usize) -> (r: bool)
    requires
        i <= a@.len(),
        i <= b@.len(),
    ensures
        r == text_le(a@.skip(i as int), b@.skip(i as int)),
    decreases a@.len() - i,
{
    if i == a.len() {
        true
    } else if i == b.len() {
        false
    } else if a[i] != b[i] {
        a[i] < b[i]
    } else {
        proof {
            assert(a@.skip(i as int).drop_first() =~= a@.skip(i + 1));
            assert(b@.skip(i as int).drop_first() =~= b@.skip(i + 1));
        }
        text_at_most(a, b, i + 1)
    }
}

fn name_at_most(a: &str, b: &str) -> (r: bool)
    ensures
        r == text_le(a@, b@),
{
    let x: Vec<char> = chars_of(a);
    let y: Vec<char> = chars_of(b);
    proof {
        assert(x@.skip(0) =~= a@);
        assert(y@.skip(0) =~= b@);
    }
    text_at_most(&x, &y, 0)
}

/// The index at which a file belongs in a sorted list.
fn place_for(sorted: &Vec<ScannedFile>, f: &ScannedFile) -> (r: usize)
    ensures
        r <= sorted@.len(),
        inserted(file_models(sorted@), f@) == file_models(sorted@).insert(r as int, f@),
{
    let mut k: usize = sorted.len();
    let ghost all = file_models(sorted@);
    let ghost tail: Seq<ScannedFileOf<Seq<char>>> = Seq::empty();
    proof {
        assert(all.take(k as int) =~= all);
        assert(all.skip(k as int) =~= Seq::empty());
        assert(inserted(all, f@) =~= inserted(all.take(k as int), f@) + all.skip(k as int));
    }
    while k > 0 && !name_at_most(sorted[k - 1].file_name.as_str(), f.file_name.as_str())
        invariant
            k <= sorted@.len(),
            all == file_models(sorted@),
            inserted(all, f@) == inserted(all.take(k as int), f@) + all.skip(k as int),
        decreases k,
    {
        proof {
            let t = all.take(k as int);
            assert(t.last() == sorted@[k - 1]@);
            assert(t.drop_last() =~= all.take(k - 1));
            assert(inserted(all.take(k - 1), f@).push(t.last()) + all.skip(k as int) =~= inserted(
                all.take(k - 1),
                f@,
            ) + all.skip(k - 1));
        }
        k = k - 1;
    }
    proof {
        let t = all.take(k as int);
        if k > 0 {
            assert(t.last() == sorted@[k - 1]@);
        }
        assert(inserted(t, f@) =~= t.push(f@));
        assert(t.push(f@) + all.skip(k as int) =~= all.insert(k as int, f@));
    }
    k
}

/// The files in order of their names.
fn sort_files(files: Vec<ScannedFile>) -> (r: Vec<ScannedFile>)
    ensures
        file_models(r@) == in_order(file_models(files@)),
{
    let ghost all = file_models(files@);
    let mut sorted: Vec<ScannedFile> = Vec::new();
    proof {
        assert(file_models(sorted@) =~= in_order(all.take(0)));
    }
    for f in it: files
        invariant
            all == file_models(it.seq()),
            file_models(sorted@) == in_order(all.take(it.index() as int)),
    {
        let ghost before = sorted@;
        let k: usize = place_for(&sorted, &f);
        proof {
            let i = it.index() as int;
            assert(all.take(i + 1).drop_last() =~= all.take(i));
            assert(all.take(i + 1).last() == f@);
            assert(file_models(before.insert(k as int, f)) =~= file_models(before).insert(
                k as int,
                f@,
            ));
        }
        sorted.insert(k, f);
    }
    proof {
        assert(all.take(all.len() as int) =~= all);
    }
    sorted
}

fn has_text(v: &Vec<String>, s: &str) -> (r: bool)
    ensures
        r == text::string_views(v@).contains(s@),
{
    let n: usize = v.len();
    let ghost all = text::string_views(v@);
    let mut i: usize = 0;
    while i < n
        invariant
            i <= n,
            n == v@.len(),
            all == text::string_views(v@),
            forall|j: int| 0 <= j < i ==> all[j] != s@,
        decreases n - i,
    {
        proof {
            assert(all[i as int] == v@[i as int]@);
        }
        if text_eq(v[i].as_str(), s) {
            return true;
        }
        i = i + 1;
    }
    false
}

/// The id of an entry file, none for another file.
fn entry_stem<'a>(name: &'a str) -> (r: Option<&'a str>)
    ensures
        match r {
            Some(s) => entry_file(name@) && s@ == stem_of(name@),
            None => !entry_file(name@),
        },
{
    let n: usize = chars_of(name).len();
    if n <= 8 {
        return None;
    }
    if text_eq(name.substring_char(n - 8, n), ".desktop") {
        Some(name.substring_char(0, n - 8))
    } else {
        None
    }
}

/// Models of cached entries.
pub open spec fn entry_models(v: Seq<CachedEntry>) -> Seq<
    CachedEntryOf<Seq<char>, Seq<Seq<char>>>,
> {
    v.map_values(|e: CachedEntry| e@)
}

fn make_entry(stem: &str, f: EntryFields) -> (r: CachedEntry)
    ensures
        r@ == entry_of(stem@, f@),
{
    let display_name: String = match f.name {
        Some(n) => n,
        None => stem.to_owned(),
    };
    let command: Vec<String> = match &f.exec_line {
        Some(x) => parse_exec_line(x.as_str()),
        None => Vec::new(),
    };
    proof {
        if f.exec_line is None {
            assert(text::string_views(command@) =~= Seq::<Seq<char>>::empty());
        }
    }
    CachedEntry {
        stem: stem.to_owned(),
        startup_wm_class: f.startup_wm_class,
        display_name,
        command,
        terminal: f.terminal,
    }
}

/// Add the entry of the given id that decoded fields stand for: a hidden entry
/// is treated as if it did not exist, and a malformed file has none.
pub fn offer_entry(stem: &str, fields: Option<EntryFields>, entries: &mut Vec<CachedEntry>)
    ensures
        entry_models(final(entries)@) == offered(
            entry_models(old(entries)@),
            stem@,
            opt_fields(fields),
        ),
{
    if let Some(e) = fields {
        if !e.hidden {
            let ghost before = entries@;
            let entry: CachedEntry = make_entry(stem, e);
            entries.push(entry);
            proof {
                assert(entry_models(entries@) =~= entry_models(before).push(entry@));
            }
        }
    }
}

fn scan_file(f: &ScannedFile, claimed: &mut Vec<String>, entries: &mut Vec<CachedEntry>)
    ensures
        (text::string_views(final(claimed)@), entry_models(final(entries)@)) == scan_step(
            (text::string_views(old(claimed)@), entry_models(old(entries)@)),
            f@,
        ),
{
    let stem: &str = match entry_stem(f.file_name.as_str()) {
        Some(s) => s,
        None => {
            return;
        },
    };
    if has_text(claimed, stem) {
        return;
    }
    let ghost names = claimed@;
    let owned: String = stem.to_owned();
    claimed.push(owned);
    proof {
        assert(text::string_views(claimed@) =~= text::string_views(names).push(stem@));
    }
    let fields: Option<EntryFields> = match &f.contents {
        Some(c) => decode_entry(f.file_name.as_str(), c.as_str()),
        None => None,
    };
    offer_entry(stem, fields, entries);
}

fn scan_dir(files: Vec<ScannedFile>, claimed: &mut Vec<String>, entries: &mut Vec<CachedEntry>)
    ensures
        (text::string_views(final(claimed)@), entry_models(final(entries)@)) == scan_files(
            (text::string_views(old(claimed)@), entry_models(old(entries)@)),
            in_order(file_models(files@)),
        ),
{
    let sorted: Vec<ScannedFile> = sort_files(files);
    let n: usize = sorted.len();
    let ghost all = file_models(sorted@);
    let ghost st = (text::string_views(claimed@), entry_models(entries@));
    let mut i: usize = 0;
    while i < n
        invariant
            i <= n,
            n == sorted@.len(),
            all == file_models(sorted@),
            (text::string_views(claimed@), entry_models(entries@)) == scan_files(
                st,
                all.take(i as int),
            ),
        decreases n - i,
    {
        proof {
            assert(all.take(i + 1).drop_last() =~= all.take(i as int));
            assert(all.take(i + 1).last() == sorted@[i as int]@);
        }
        scan_file(&sorted[i], claimed, entries);
        i = i + 1;
    }
    proof {
        assert(all.take(n as int) =~= all);
    }
}

// ── Application directories ──────────────────────────────────────────

/// Is a path absolute?
pub open spec fn absolute(p: Seq<char>) -> bool {
    p.len() > 0 && p[0] == '/'
}

/// The `applications` directories of the absolute paths of a list, in order.
pub open spec fn application_dirs(bases: Seq<Seq<char>>) -> Seq<Seq<char>>
    decreases bases.len(),
{
    if bases.len() == 0 {
        Seq::empty()
    } else {
        let before = application_dirs(bases.drop_last());
        if absolute(bases.last()) {
            before.push(settings::joined_path(bases.last(), "applications"@))
        } else {
            before
        }
    }
}

/// The application directories in precedence order: the user's data directory
/// first, then the system's, with the usual defaults where they are unset.
pub open spec fn dirs_of(
    data_home: Option<Seq<char>>,
    home: Option<Seq<char>>,
    data_dirs: Option<Seq<char>>,
) -> Seq<Seq<char>> {
    let own = match data_home {
        Some(d) if absolute(d) => Some(d),
        _ => match home {
            Some(h) => Some(settings::joined_path(h, ".local/share"@)),
            None => None,
        },
    };
    let head = match own {
        Some(d) => seq![settings::joined_path(d, "applications"@)],
        None => Seq::empty(),
    };
    let bases = match data_dirs {
        Some(d) if d.len() > 0 => d,
        _ => "/usr/local/share:/usr/share"@,
    };
    head + application_dirs(text::split(bases, ':'))
}

fn is_absolute(p: &str) -> (r: bool)
    ensures
        r == absolute(p@),
{
    let v: Vec<char> = chars_of(p);
    v.len() > 0 && v[0] == '/'
}

fn join_path(dir: &str, rest: &str) -> (r: String)
    ensures
        r@ == settings::joined_path(dir@, rest@),
{
    let v: Vec<char> = chars_of(dir);
    let mut path: String = dir.to_owned();
    if v.len() > 0 && v[v.len() - 1] != '/' {
        path.append("/");
    }
    path.append(rest);
    path
}

/// The application directories in precedence order, from the values of
/// `XDG_DATA_HOME`, `HOME` and `XDG_DATA_DIRS`.
pub fn default_application_dirs(
    data_home: Option<&str>,
    home: Option<&str>,
    data_dirs: Option<&str>,
) -> (r: Vec<String>)
    ensures
        text::string_views(r@) == dirs_of(
            parse::opt_str(data_home),
            parse::opt_str(home),
            parse::opt_str(data_dirs),
        ),
{
    let mut dirs: Vec<String> = Vec::new();
    let own: Option<String> = match data_home {
        Some(d) => {
            if is_absolute(d) {
                Some(d.to_owned())
            } else {
                match home {
                    Some(h) => Some(join_path(h, ".local/share")),
                    None => None,
                }
            }
        },
        None => match home {
            Some(h) => Some(join_path(h, ".local/share")),
            None => None,
        },
    };
    proof {
        assert(text::string_views(dirs@) =~= Seq::<Seq<char>>::empty());
    }
    if let Some(d) = own {
        let p: String = join_path(d.as_str(), "applications");
        dirs.push(p);
        proof {
            assert(text::string_views(dirs@) =~= seq![p@]);
        }
    }
    let ghost head = text::string_views(dirs@);
    let bases: &str = match data_dirs {
        Some(d) => {
            if d.is_empty() {
                "/usr/local/share:/usr/share"
            } else {
                d
            }
        },
        None => "/usr/local/share:/usr/share",
    };
    let parts: Vec<&str> = text::split_parts(bases, ':');
    let n: usize = parts.len();
    let ghost all = text::views(parts@);
    let mut i: usize = 0;
    proof {
        assert(head + application_dirs(all.take(0)) =~= head);
    }
    while i < n
        invariant
            i <= n,
            n == parts@.len(),
            all == text::views(parts@),
            text::string_views(dirs@) == head + application_dirs(all.take(i as int)),
        decreases n - i,
    {
        proof {
            assert(all.take(i + 1).drop_last() =~= all.take(i as int));
            assert(all.take(i + 1).last() == parts@[i as int]@);
        }
        if is_absolute(parts[i]) {
            let ghost before = dirs@;
            let p: String = join_path(parts[i], "applications");
            dirs.push(p);
            proof {
                assert(text::string_views(dirs@) =~= text::string_views(before).push(p@));
                assert(text::string_views(dirs@) =~= head + application_dirs(all.take(i + 1)));
            }
        }
        i = i + 1;
    }
    proof {
        assert(all.take(n as int) =~= all);
    }
    dirs
}

// ── The cache ────────────────────────────────────────────────────────

/// A window's resolved identity: the surface's `app_id`, the id of the entry
/// that launches it, and the name shown for it.
#[derive(Debug, PartialEq, Eq)]
pub struct AppIdentity {
    /// The surface's `app_id`: the key that a future window is matched by.
    pub app_id: String,
    /// The entry's id (file name without suffix): the launch key.
    pub desktop_id: String,
    /// The entry's name, not localized (falls back to the id).
    pub display_name: String,
}

/// A scanned, deduplicated view of the desktop-entry database.
///
/// Staleness is keyed on the scanned directories' modification times, which
/// change when an entry is added or removed. Editing a file in place is not
/// detected.
#[derive(Debug, PartialEq, Eq)]
pub struct DesktopEntryCache {
    pub dirs: Vec<String>,
    pub mtimes: Vec<Option<i128>>,
    pub entries: Vec<CachedEntry>,
}

/// The modification times of scanned directories.
pub open spec fn mtimes_of(scan: Seq<ScannedDir>) -> Seq<Option<i128>> {
    scan.map_values(|d: ScannedDir| d.mtime)
}

/// Do two texts agree but for the case of ASCII letters?
pub open spec fn same_ignoring_case(a: Seq<char>, b: Seq<char>) -> bool {
    a.len() == b.len() && forall|i: int|
        0 <= i < a.len() ==> text::ascii_lower(#[trigger] a[i]) == text::ascii_lower(b[i])
}

/// How an entry can match an `app_id`, strongest first.
#[derive(Clone, Copy, Debug, PartialEq, Eq, Structural)]
pub enum MatchKind {
    Stem,
    WmClass,
    StemIgnoringCase,
}

/// Does a launchable entry match an `app_id` in the given way?
pub open spec fn entry_matches(
    e: CachedEntryOf<Seq<char>, Seq<Seq<char>>>,
    app_id: Seq<char>,
    kind: MatchKind,
) -> bool {
    can_launch(e) && match kind {
        MatchKind::Stem => e.stem == app_id,
        MatchKind::WmClass => e.startup_wm_class == Some(app_id),
        MatchKind::StemIgnoringCase => same_ignoring_case(e.stem, app_id),
    }
}

/// The first index at or after `i` of an entry that matches, or the length.
pub open spec fn find_entry(
    entries: Seq<CachedEntryOf<Seq<char>, Seq<Seq<char>>>>,
    app_id: Seq<char>,
    kind: MatchKind,
    i: int,
) -> int
    decreases entries.len() - i,
{
    if i >= entries.len() {
        entries.len() as int
    } else if entry_matches(entries[i], app_id, kind) {
        i
    } else {
        find_entry(entries, app_id, kind, i + 1)
    }
}

/// The index of the entry that an `app_id` resolves to, or the length: an
/// exact id first, then an exact window class, then an id in any case.
pub open spec fn resolved_index(
    entries: Seq<CachedEntryOf<Seq<char>, Seq<Seq<char>>>>,
    app_id: Seq<char>,
) -> int {
    let a = find_entry(entries, app_id, MatchKind::Stem, 0);
    let b = find_entry(entries, app_id, MatchKind::WmClass, 0);
    if a < entries.len() {
        a
    } else if b < entries.len() {
        b
    } else {
        find_entry(entries, app_id, MatchKind::StemIgnoringCase, 0)
    }
}

fn lower_char(c: char) -> (r: char)
    ensures
        r == text::ascii_lower(c),
{
    if 'A' <= c && c <= 'Z' {
        ((c as u32 + 32) as u8) as char
    } else {
        c
    }
}

fn eq_ignore_ascii_case(a: &str, b: &str) -> (r: bool)
    ensures
        r == same_ignoring_case(a@, b@),
{
    let x: Vec<char> = chars_of(a);
    let y: Vec<char> = chars_of(b);
    if x.len() != y.len() {
        return false;
    }
    let n: usize = x.len();
    let mut i: usize = 0;
    while i < n
        invariant
            i <= n,
            n == x@.len(),
            n == y@.len(),
            x@ == a@,
            y@ == b@,
            forall|j: int|
                0 <= j < i ==> text::ascii_lower(#[trigger] x@[j]) == text::ascii_lower(y@[j]),
        decreases n - i,
    {
        if lower_char(x[i]) != lower_char(y[i]) {
            proof {
                assert(text::ascii_lower(x@[i as int]) != text::ascii_lower(y@[i as int]));
            }
            return false;
        }
        i = i + 1;
    }
    true
}

fn is_match(e: &CachedEntry, app_id: &str, kind: MatchKind) -> (r: bool)
    ensures
        r == entry_matches(e@, app_id@, kind),
{
    if !e.launchable() {
        return false;
    }
    match kind {
        MatchKind::Stem => text_eq(e.stem.as_str(), app_id),
        MatchKind::WmClass => match &e.startup_wm_class {
            Some(c) => text_eq(c.as_str(), app_id),
            None => false,
        },
        MatchKind::StemIgnoringCase => eq_ignore_ascii_case(e.stem.as_str(), app_id),
    }
}

/// A copy of a list of strings.
fn clone_list(v: &Vec<String>) -> (r: Vec<String>)
    ensures
        r@ == v@,
{
    let mut out: Vec<String> = Vec::new();
    let n: usize = v.len();
    let mut i: usize = 0;
    while i < n
        invariant
            i <= n,
            n == v@.len(),
            out@ == v@.take(i as int),
        decreases n - i,
    {
        let s: String = v[i].clone();
        out.push(s);
        i = i + 1;
    }
    out
}

impl DesktopEntryCache {
    /// The cache of the given application directories, from what was found in
    /// each. Earlier directories win; only top-level files count.
    pub fn new(dirs: Vec<String>, scan: Vec<ScannedDir>) -> (r: DesktopEntryCache)
        requires
            scan@.len() == dirs@.len(),
        ensures
            r.dirs@ == dirs@,
            r.mtimes@ == mtimes_of(scan@),
            entry_models(r.entries@) == scan_dirs(scan@).1,
    {
        let mut mtimes: Vec<Option<i128>> = Vec::new();
        let mut claimed: Vec<String> = Vec::new();
        let mut entries: Vec<CachedEntry> = Vec::new();
        let ghost all = scan@;
        proof {
            assert(text::string_views(claimed@) =~= Seq::<Seq<char>>::empty());
            assert(entry_models(entries@) =~= Seq::empty());
        }
        for d in it: scan
            invariant
                all == it.seq(),
                mtimes@ == mtimes_of(all.take(it.index() as int)),
                (text::string_views(claimed@), entry_models(entries@)) == scan_dirs(
                    all.take(it.index() as int),
                ),
        {
            proof {
                let i = it.index() as int;
                assert(all.take(i + 1).drop_last() =~= all.take(i));
                assert(all.take(i + 1).last() == d);
                assert(mtimes_of(all.take(i + 1)) =~= mtimes_of(all.take(i)).push(d.mtime));
            }
            mtimes.push(d.mtime);
            scan_dir(d.files, &mut claimed, &mut entries);
        }
        proof {
            assert(all.take(all.len() as int) =~= all);
        }
        DesktopEntryCache { dirs, mtimes, entries }
    }

    /// The cache of the environment's application directories, from what was
    /// found in each.
    pub fn from_env(
        data_home: Option<&str>,
        home: Option<&str>,
        data_dirs: Option<&str>,
        scan: Vec<ScannedDir>,
    ) -> (r: DesktopEntryCache)
        requires
            scan@.len() == dirs_of(
                parse::opt_str(data_home),
                parse::opt_str(home),
                parse::opt_str(data_dirs),
            ).len(),
        ensures
            text::string_views(r.dirs@) == dirs_of(
                parse::opt_str(data_home),
                parse::opt_str(home),
                parse::opt_str(data_dirs),
            ),
            r.mtimes@ == mtimes_of(scan@),
            entry_models(r.entries@) == scan_dirs(scan@).1,
    {
        let dirs: Vec<String> = default_application_dirs(data_home, home, data_dirs);
        proof {
            assert(text::string_views(dirs@).len() == dirs@.len());
        }
        DesktopEntryCache::new(dirs, scan)
    }

    fn find(&self, app_id: &str, kind: MatchKind) -> (r: usize)
        ensures
            r == find_entry(entry_models(self.entries@), app_id@, kind, 0),
            r <= self.entries@.len(),
    {
        let n: usize = self.entries.len();
        let ghost all = entry_models(self.entries@);
        let mut i: usize = 0;
        while i < n
            invariant
                i <= n,
                n == self.entries@.len(),
                all == entry_models(self.entries@),
                find_entry(all, app_id@, kind, 0) == find_entry(all, app_id@, kind, i as int),
            decreases n - i,
        {
            proof {
                assert(all[i as int] == self.entries@[i as int]@);
            }
            if is_match(&self.entries[i], app_id, kind) {
                return i;
            }
            i = i + 1;
        }
        n
    }

    /// Resolve a surface's `app_id` to an identity, or `None` if no launchable
    /// entry matches. Match order: exact id, then exact window class, then id
    /// in any case.
    pub fn resolve(&self, app_id: &str) -> (r: Option<AppIdentity>)
        ensures
            ({
                let entries = entry_models(self.entries@);
                let i = resolved_index(entries, app_id@);
                match r {
                    Some(id) => 0 <= i < entries.len() && id.app_id@ == app_id@ && id.desktop_id@
                        == entries[i].stem && id.display_name@ == entries[i].display_name,
                    None => i == entries.len(),
                }
            }),
    {
        let n: usize = self.entries.len();
        let mut i: usize = self.find(app_id, MatchKind::Stem);
        if i == n {
            i = self.find(app_id, MatchKind::WmClass);
        }
        if i == n {
            i = self.find(app_id, MatchKind::StemIgnoringCase);
        }
        if i < n {
            Some(
                AppIdentity {
                    app_id: app_id.to_owned(),
                    desktop_id: self.entries[i].stem.clone(),
                    display_name: self.entries[i].display_name.clone(),
                },
            )
        } else {
            None
        }
    }

    /// The relaunch command for a resolved id. `None` if the entry is no longer
    /// there. Run it as it is: joining with spaces would split arguments that
    /// hold whitespace.
    pub fn launch_command(&self, desktop_id: &str) -> (r: Option<Vec<String>>)
        ensures
            ({
                let entries = entry_models(self.entries@);
                let i = find_entry(entries, desktop_id@, MatchKind::Stem, 0);
                match r {
                    Some(argv) => 0 <= i < entries.len() && text::string_views(argv@)
                        == entries[i].command,
                    None => i == entries.len(),
                }
            }),
    {
        let i: usize = self.find(desktop_id, MatchKind::Stem);
        if i < self.entries.len() {
            Some(clone_list(&self.entries[i].command))
        } else {
            None
        }
    }

    /// True if the current modification time of any scanned directory differs
    /// from the one at build time: an entry was added or removed.
    pub fn is_stale(&self, now: &Vec<Option<i128>>) -> (r: bool)
        requires
            now@.len() == self.mtimes@.len(),
        ensures
            r == (now@ != self.mtimes@),
    {
        let n: usize = now.len();
        let mut i: usize = 0;
        while i < n
            invariant
                i <= n,
                n == now@.len(),
                n == self.mtimes@.len(),
                forall|j: int| 0 <= j < i ==> now@[j] == self.mtimes@[j],
            decreases n - i,
        {
            let same: bool = match (now[i], self.mtimes[i]) {
                (Some(a), Some(b)) => a == b,
                (None, None) => true,
                _ => false,
            };
            if !same {
                return true;
            }
            i = i + 1;
        }
        proof {
            assert(now@ =~= self.mtimes@);
        }
        false
    }

    /// Rebuild the cache in place, from a new look at its directories, if it
    /// has gone stale. Returns whether a rebuild happened.
    pub fn refresh(&mut self, scan: Vec<ScannedDir>) -> (r: bool)
        requires
            scan@.len() == old(self).dirs@.len(),
            scan@.len() == old(self).mtimes@.len(),
        ensures
            r == (mtimes_of(scan@) != old(self).mtimes@),
            final(self).dirs@ == old(self).dirs@,
            final(self).mtimes@ == mtimes_of(scan@),
            r ==> entry_models(final(self).entries@) == scan_dirs(scan@).1,
            !r ==> *final(self) == *old(self),
    {
        let mut now: Vec<Option<i128>> = Vec::new();
        let n: usize = scan.len();
        let mut i: usize = 0;
        while i < n
            invariant
                i <= n,
                n == scan@.len(),
                now@ == mtimes_of(scan@.take(i as int)),
            decreases n - i,
        {
            now.push(scan[i].mtime);
            proof {
                assert(now@ =~= mtimes_of(scan@.take(i + 1)));
            }
            i = i + 1;
        }
        proof {
            assert(scan@.take(n as int) =~= scan@);
        }
        if self.is_stale(&now) {
            let dirs: Vec<String> = clone_list(&self.dirs);
            *self = DesktopEntryCache::new(dirs, scan);
            true
        } else {
            false
        }
    }
}

// ── Laws ─────────────────────────────────────────────────────────────

/// Are the files in order of their names?
pub open spec fn ordered(files: Seq<ScannedFileOf<Seq<char>>>) -> bool {
    forall|i: int, j: int|
        0 <= i <= j < files.len() ==> text_le(files[i].file_name, files[j].file_name)
}

proof fn lemma_text_le_reflexive(a: Seq<char>)
    ensures
        text_le(a, a),
    decreases a.len(),
{
    if a.len() > 0 {
        lemma_text_le_reflexive(a.drop_first());
    }
}

proof fn lemma_text_le_transitive(a: Seq<char>, b: Seq<char>, c: Seq<char>)
    requires
        text_le(a, b),
        text_le(b, c),
    ensures
        text_le(a, c),
    decreases a.len(),
{
    if a.len() > 0 && b.len() > 0 && c.len() > 0 && a[0] == b[0] && b[0] == c[0] {
        lemma_text_le_transitive(a.drop_first(), b.drop_first(), c.drop_first());
    }
}

proof fn lemma_text_le_total(a: Seq<char>, b: Seq<char>)
    ensures
        text_le(a, b) || text_le(b, a),
    decreases a.len(),
{
    if a.len() > 0 && b.len() > 0 && a[0] == b[0] {
        lemma_text_le_total(a.drop_first(), b.drop_first());
    }
}

proof fn lemma_inserted(sorted: Seq<ScannedFileOf<Seq<char>>>, f: ScannedFileOf<Seq<char>>)
    requires
        ordered(sorted),
    ensures
        ordered(inserted(sorted, f)),
        inserted(sorted, f).len() == sorted.len() + 1,
        inserted(sorted, f).to_multiset() =~= sorted.to_multiset().insert(f),
        forall|i: int|
            0 <= i < inserted(sorted, f).len() ==> (#[trigger] inserted(sorted, f)[i] == f
                || sorted.contains(inserted(sorted, f)[i])),
    decreases sorted.len(),
{
    broadcast use vstd::seq_lib::group_to_multiset_ensures;

    let r = inserted(sorted, f);
    if sorted.len() == 0 {
        assert(sorted =~= Seq::empty());
        assert(seq![f] =~= sorted.push(f));
        lemma_text_le_reflexive(f.file_name);
    } else if text_le(sorted.last().file_name, f.file_name) {
        lemma_text_le_reflexive(f.file_name);
        assert forall|i: int, j: int| 0 <= i <= j < r.len() implies text_le(
            r[i].file_name,
            r[j].file_name,
        ) by {
            if j == sorted.len() && i < j {
                assert(text_le(sorted[i].file_name, sorted[sorted.len() - 1].file_name));
                lemma_text_le_transitive(
                    sorted[i].file_name,
                    sorted.last().file_name,
                    f.file_name,
                );
            }
        }
        assert forall|i: int| 0 <= i < r.len() implies (#[trigger] r[i] == f || sorted.contains(
            r[i],
        )) by {
            if i < sorted.len() {
                assert(r[i] == sorted[i]);
            }
        }
    } else {
        let front = sorted.drop_last();
        let last = sorted.last();
        lemma_inserted(front, f);
        lemma_text_le_total(f.file_name, last.file_name);
        lemma_text_le_reflexive(last.file_name);
        let g = inserted(front, f);
        assert(r == g.push(last));
        assert(sorted =~= front.push(last));
        assert forall|i: int, j: int| 0 <= i <= j < r.len() implies text_le(
            r[i].file_name,
            r[j].file_name,
        ) by {
            if j == g.len() && i < j {
                assert(r[i] == g[i]);
                if g[i] != f {
                    assert(front.contains(g[i]));
                    let k = choose|k: int| 0 <= k < front.len() && front[k] == g[i];
                    assert(sorted[k] == g[i]);
                    assert(text_le(sorted[k].file_name, sorted[sorted.len() - 1].file_name));
                }
            } else if j < g.len() {
                assert(r[i] == g[i] && r[j] == g[j]);
            }
        }
        assert forall|i: int| 0 <= i < r.len() implies (#[trigger] r[i] == f || sorted.contains(
            r[i],
        )) by {
            if i < g.len() {
                assert(r[i] == g[i]);
                if g[i] != f {
                    let k = choose|k: int| 0 <= k < front.len() && front[k] == g[i];
                    assert(sorted[k] == g[i]);
                }
            } else {
                assert(sorted[sorted.len() - 1] == r[i]);
            }
        }
        assert(r.to_multiset() =~= g.to_multiset().insert(last));
        assert(sorted.to_multiset() =~= front.to_multiset().insert(last));
    }
}

/// Files are scanned in order of their names, every one exactly as often as
/// it is there: the order in which a directory lists them does not matter.
pub proof fn lemma_scan_order(files: Seq<ScannedFileOf<Seq<char>>>)
    ensures
        ordered(in_order(files)),
        in_order(files).to_multiset() == files.to_multiset(),
    decreases files.len(),
{
    broadcast use vstd::seq_lib::group_to_multiset_ensures;

    if files.len() == 0 {
        assert(files =~= Seq::empty());
    } else {
        lemma_scan_order(files.drop_last());
        lemma_inserted(in_order(files.drop_last()), files.last());
        assert(files =~= files.drop_last().push(files.last()));
    }
}

/// Is every id claimed at most once, and does every entry hold a claimed id of
/// its own?
pub open spec fn one_per_id(
    st: (Seq<Seq<char>>, Seq<CachedEntryOf<Seq<char>, Seq<Seq<char>>>>),
) -> bool {
    &&& forall|i: int| 0 <= i < st.1.len() ==> st.0.contains(#[trigger] st.1[i].stem)
    &&& forall|i: int, j: int|
        0 <= i < j < st.1.len() ==> #[trigger] st.1[i].stem != #[trigger] st.1[j].stem
}

/// What was found so far stays in place, and nothing claimed is added again:
/// an id that an earlier file or directory holds, hidden or broken though that
/// file may be, is never taken by a later one.
pub proof fn lemma_first_claim_wins(
    st: (Seq<Seq<char>>, Seq<CachedEntryOf<Seq<char>, Seq<Seq<char>>>>),
    files: Seq<ScannedFileOf<Seq<char>>>,
)
    requires
        one_per_id(st),
    ensures
        one_per_id(scan_files(st, files)),
        st.1.is_prefix_of(scan_files(st, files).1),
        st.0.is_prefix_of(scan_files(st, files).0),
        forall|i: int|
            st.1.len() <= i < scan_files(st, files).1.len() ==> !st.0.contains(
                (#[trigger] scan_files(st, files).1[i]).stem,
            ),
    decreases files.len(),
{
    if files.len() > 0 {
        lemma_first_claim_wins(st, files.drop_last());
        let mid = scan_files(st, files.drop_last());
        let end = scan_step(mid, files.last());
        let stem = stem_of(files.last().file_name);
        if end != mid {
            assert(end.0 == mid.0.push(stem));
            assert(end.0[mid.0.len() as int] == stem);
            assert forall|x: Seq<char>| mid.0.contains(x) implies end.0.contains(x) by {
                let k = choose|k: int| 0 <= k < mid.0.len() && mid.0[k] == x;
                assert(end.0[k] == x);
            }
            assert forall|x: Seq<char>| st.0.contains(x) implies mid.0.contains(x) by {
                let k = choose|k: int| 0 <= k < st.0.len() && st.0[k] == x;
                assert(mid.0[k] == x);
            }
            assert forall|i: int| 0 <= i < end.1.len() implies end.0.contains(
                #[trigger] end.1[i].stem,
            ) by {
                if i < mid.1.len() {
                    assert(end.1[i] == mid.1[i]);
                }
            }
            assert forall|i: int, j: int| 0 <= i < j < end.1.len() implies #[trigger] end.1[i].stem
                != #[trigger] end.1[j].stem by {
                assert(end.1[i] == mid.1[i]);
                if j < mid.1.len() {
                    assert(end.1[j] == mid.1[j]);
                } else {
                    assert(mid.0.contains(mid.1[i].stem));
                }
            }
            assert forall|i: int| st.1.len() <= i < end.1.len() implies !st.0.contains(
                (#[trigger] end.1[i]).stem,
            ) by {
                if i < mid.1.len() {
                    assert(end.1[i] == mid.1[i]);
                }
            }
        }
    }
}

/// No two cached entries share an id.
pub proof fn lemma_ids_are_distinct(dirs: Seq<ScannedDir>)
    ensures
        one_per_id(scan_dirs(dirs)),
    decreases dirs.len(),
{
    if dirs.len() > 0 {
        lemma_ids_are_distinct(dirs.drop_last());
        lemma_first_claim_wins(
            scan_dirs(dirs.drop_last()),
            in_order(file_models(dirs.last().files@)),
        );
    }
}

/// Earlier directories take precedence: a further directory changes no entry
/// that is there, and adds none under a claimed id.
pub proof fn lemma_earlier_directories_win(dirs: Seq<ScannedDir>, more: ScannedDir)
    ensures
        scan_dirs(dirs).1.is_prefix_of(scan_dirs(dirs.push(more)).1),
        forall|i: int|
            scan_dirs(dirs).1.len() <= i < scan_dirs(dirs.push(more)).1.len() ==> !scan_dirs(
                dirs,
            ).0.contains((#[trigger] scan_dirs(dirs.push(more)).1[i]).stem),
{
    lemma_ids_are_distinct(dirs);
    assert(dirs.push(more).drop_last() =~= dirs);
    lemma_first_claim_wins(scan_dirs(dirs), in_order(file_models(more.files@)));
}

proof fn lemma_find_entry(
    entries: Seq<CachedEntryOf<Seq<char>, Seq<Seq<char>>>>,
    app_id: Seq<char>,
    kind: MatchKind,
    i: int,
)
    requires
        0 <= i <= entries.len(),
    ensures
        i <= find_entry(entries, app_id, kind, i) <= entries.len(),
        find_entry(entries, app_id, kind, i) < entries.len() ==> entry_matches(
            entries[find_entry(entries, app_id, kind, i)],
            app_id,
            kind,
        ),
        forall|j: int|
            i <= j < find_entry(entries, app_id, kind, i) ==> !entry_matches(
                #[trigger] entries[j],
                app_id,
                kind,
            ),
    decreases entries.len() - i,
{
    if i < entries.len() && !entry_matches(entries[i], app_id, kind) {
        lemma_find_entry(entries, app_id, kind, i + 1);
    }
}

/// A wrong app never launches: what an `app_id` resolves to is launchable, and
/// its id is the `app_id` (but for the case of ASCII letters) or its window
/// class is exactly the `app_id`. An exact id beats everything else, an exact
/// window class beats an id in another case.
pub proof fn lemma_resolves_exactly(
    entries: Seq<CachedEntryOf<Seq<char>, Seq<Seq<char>>>>,
    app_id: Seq<char>,
)
    ensures
        ({
            let i = resolved_index(entries, app_id);
            &&& 0 <= i <= entries.len()
            &&& i < entries.len() ==> can_launch(entries[i])
            &&& i < entries.len() ==> (same_ignoring_case(entries[i].stem, app_id)
                || entries[i].startup_wm_class == Some(app_id))
            &&& forall|j: int|
                0 <= j < entries.len() && can_launch(#[trigger] entries[j]) && entries[j].stem
                    == app_id ==> i < entries.len() && entries[i].stem == app_id
            &&& forall|j: int|
                0 <= j < entries.len() && can_launch(#[trigger] entries[j])
                    && entries[j].startup_wm_class == Some(app_id) ==> i < entries.len() && (
                entries[i].stem == app_id || entries[i].startup_wm_class == Some(app_id))
        }),
{
    lemma_find_entry(entries, app_id, MatchKind::Stem, 0);
    lemma_find_entry(entries, app_id, MatchKind::WmClass, 0);
    lemma_find_entry(entries, app_id, MatchKind::StemIgnoringCase, 0);
    assert forall|j: int|
        0 <= j < entries.len() && can_launch(#[trigger] entries[j]) && entries[j].stem
            == app_id implies entry_matches(entries[j], app_id, MatchKind::Stem) by {}
    assert forall|j: int|
        0 <= j < entries.len() && can_launch(#[trigger] entries[j])
            && entries[j].startup_wm_class == Some(app_id) implies entry_matches(
        entries[j],
        app_id,
        MatchKind::WmClass,
    ) by {}
}

/// Whatever resolves can be relaunched: the id of the resolved entry finds
/// that same entry again, with a command that is not empty.
pub proof fn lemma_resolved_can_relaunch(dirs: Seq<ScannedDir>, app_id: Seq<char>)
    ensures
        ({
            let entries = scan_dirs(dirs).1;
            let i = resolved_index(entries, app_id);
            i < entries.len() ==> find_entry(entries, entries[i].stem, MatchKind::Stem, 0) == i
                && entries[i].command.len() > 0
        }),
{
    let entries = scan_dirs(dirs).1;
    let i = resolved_index(entries, app_id);
    lemma_ids_are_distinct(dirs);
    lemma_resolves_exactly(entries, app_id);
    if i < entries.len() {
        lemma_find_entry(entries, entries[i].stem, MatchKind::Stem, 0);
        let j = find_entry(entries, entries[i].stem, MatchKind::Stem, 0);
        assert(entry_matches(entries[i], entries[i].stem, MatchKind::Stem));
        if j < i {
            assert(entries[j].stem != entries[i].stem);
        }
    }
}

// ── First files ──────────────────────────────────────────────────────

/// Is this the entry file of an id?
pub open spec fn holds(f: ScannedFileOf<Seq<char>>, stem: Seq<char>) -> bool {
    entry_file(f.file_name) && stem_of(f.file_name) == stem
}

/// The first file of a list that holds an id.
pub open spec fn first_holding(files: Seq<ScannedFileOf<Seq<char>>>, stem: Seq<char>) -> Option<
    ScannedFileOf<Seq<char>>,
>
    decreases files.len(),
{
    if files.len() == 0 {
        None
    } else {
        match first_holding(files.drop_last(), stem) {
            Some(f) => Some(f),
            None => if holds(files.last(), stem) {
                Some(files.last())
            } else {
                None
            },
        }
    }
}

/// The file of an id: the one in the first directory that holds it.
pub open spec fn file_of(dirs: Seq<ScannedDir>, stem: Seq<char>) -> Option<
    ScannedFileOf<Seq<char>>,
>
    decreases dirs.len(),
{
    if dirs.len() == 0 {
        None
    } else {
        match file_of(dirs.drop_last(), stem) {
            Some(f) => Some(f),
            None => first_holding(file_models(dirs.last().files@), stem),
        }
    }
}

/// What a file says.
pub open spec fn fields_in(f: ScannedFileOf<Seq<char>>) -> Option<EntryFieldsOf<Seq<char>>> {
    match f.contents {
        Some(c) => decoded(f.file_name, c),
        None => None,
    }
}

/// The entries of an id.
pub open spec fn with_id(
    entries: Seq<CachedEntryOf<Seq<char>, Seq<Seq<char>>>>,
    stem: Seq<char>,
) -> Seq<CachedEntryOf<Seq<char>, Seq<Seq<char>>>>
    decreases entries.len(),
{
    if entries.len() == 0 {
        Seq::empty()
    } else {
        let before = with_id(entries.drop_last(), stem);
        if entries.last().stem == stem {
            before.push(entries.last())
        } else {
            before
        }
    }
}

proof fn lemma_same_file_name(
    a: ScannedFileOf<Seq<char>>,
    b: ScannedFileOf<Seq<char>>,
    stem: Seq<char>,
)
    requires
        holds(a, stem),
        holds(b, stem),
    ensures
        a.file_name == b.file_name,
{
    let (x, y) = (a.file_name, b.file_name);
    assert(x =~= x.take(x.len() - 8) + x.skip(x.len() - 8));
    assert(y =~= y.take(y.len() - 8) + y.skip(y.len() - 8));
}

proof fn lemma_inserting_keeps_first(
    sorted: Seq<ScannedFileOf<Seq<char>>>,
    f: ScannedFileOf<Seq<char>>,
    stem: Seq<char>,
)
    ensures
        first_holding(inserted(sorted, f), stem) == (match first_holding(sorted, stem) {
            Some(x) => Some(x),
            None => if holds(f, stem) {
                Some(f)
            } else {
                None
            },
        }),
    decreases sorted.len(),
{
    if sorted.len() == 0 {
        assert(seq![f].drop_last() =~= Seq::empty());
        assert(first_holding(seq![f].drop_last(), stem) is None);
    } else if text_le(sorted.last().file_name, f.file_name) {
        assert(sorted.push(f).drop_last() =~= sorted);
    } else {
        let front = sorted.drop_last();
        let last = sorted.last();
        lemma_inserting_keeps_first(front, f, stem);
        assert(inserted(front, f).push(last).drop_last() =~= inserted(front, f));
        if holds(f, stem) && holds(last, stem) {
            lemma_same_file_name(f, last, stem);
            lemma_text_le_reflexive(f.file_name);
        }
    }
}

proof fn lemma_order_keeps_first(files: Seq<ScannedFileOf<Seq<char>>>, stem: Seq<char>)
    ensures
        first_holding(in_order(files), stem) == first_holding(files, stem),
    decreases files.len(),
{
    if files.len() > 0 {
        lemma_order_keeps_first(files.drop_last(), stem);
        lemma_inserting_keeps_first(in_order(files.drop_last()), files.last(), stem);
    }
}

proof fn lemma_first_in_list(
    st: (Seq<Seq<char>>, Seq<CachedEntryOf<Seq<char>, Seq<Seq<char>>>>),
    files: Seq<ScannedFileOf<Seq<char>>>,
    stem: Seq<char>,
)
    ensures
        scan_files(st, files).0.contains(stem) == (st.0.contains(stem) || first_holding(
            files,
            stem,
        ) is Some),
        with_id(scan_files(st, files).1, stem) == (match first_holding(files, stem) {
            Some(f) if !st.0.contains(stem) => offered(with_id(st.1, stem), stem, fields_in(f)),
            _ => with_id(st.1, stem),
        }),
    decreases files.len(),
{
    if files.len() > 0 {
        let front = files.drop_last();
        let f = files.last();
        lemma_first_in_list(st, front, stem);
        let mid = scan_files(st, front);
        let own = stem_of(f.file_name);
        if entry_file(f.file_name) && !mid.0.contains(own) {
            let end = scan_step(mid, f);
            assert(end.0 == mid.0.push(own));
            assert(end.0.contains(stem) == (mid.0.contains(stem) || own == stem)) by {
                assert(end.0[mid.0.len() as int] == own);
                if mid.0.contains(stem) {
                    let k = choose|k: int| 0 <= k < mid.0.len() && mid.0[k] == stem;
                    assert(end.0[k] == stem);
                }
            }
            if let Some(e) = fields_in(f) {
                if !e.hidden {
                    assert(end.1.drop_last() =~= mid.1);
                }
            }
        }
    }
}

/// The entry of an id is made from the first file that holds it, in the first
/// directory that has one: there is exactly one entry then, and none where that
/// file is hidden, malformed or unreadable, whatever later directories hold.
pub proof fn lemma_first_file_counts(dirs: Seq<ScannedDir>, stem: Seq<char>)
    ensures
        with_id(scan_dirs(dirs).1, stem) == (match file_of(dirs, stem) {
            Some(f) => offered(Seq::empty(), stem, fields_in(f)),
            None => Seq::empty(),
        }),
        scan_dirs(dirs).0.contains(stem) == file_of(dirs, stem) is Some,
    decreases dirs.len(),
{
    if dirs.len() > 0 {
        lemma_first_file_counts(dirs.drop_last(), stem);
        let files = file_models(dirs.last().files@);
        lemma_order_keeps_first(files, stem);
        lemma_first_in_list(scan_dirs(dirs.drop_last()), in_order(files), stem);
    }
}

// ── Quoting ──────────────────────────────────────────────────────────

/// A text with a backslash before each character that one escapes.
pub open spec fn escaped(a: Seq<char>) -> Seq<char>
    decreases a.len(),
{
    if a.len() == 0 {
        Seq::empty()
    } else if escapable(a[0]) {
        seq!['\\', a[0]] + escaped(a.drop_first())
    } else {
        seq![a[0]] + escaped(a.drop_first())
    }
}

/// An argument between double quotes.
pub open spec fn quoted(a: Seq<char>) -> Seq<char> {
    seq!['"'] + escaped(a) + seq!['"']
}

/// Quoted arguments with spaces between them.
pub open spec fn quoted_line(args: Seq<Seq<char>>) -> Seq<char>
    decreases args.len(),
{
    if args.len() == 0 {
        Seq::empty()
    } else if args.len() == 1 {
        quoted(args[0])
    } else {
        quoted(args[0]) + seq![' '] + quoted_line(args.drop_first())
    }
}

proof fn lemma_reads_escaped(s: Seq<char>, i: int, a: Seq<char>, current: Seq<char>)
    requires
        0 <= i,
        i + escaped(a).len() < s.len(),
        forall|k: int| 0 <= k < escaped(a).len() ==> s[i + k] == #[trigger] escaped(a)[k],
        s[i + escaped(a).len()] == '"',
    ensures
        tokens_from(s, i, current, true, true) == tokens_from(
            s,
            i + escaped(a).len() + 1,
            current + a,
            true,
            false,
        ),
    decreases a.len(),
{
    let e = escaped(a);
    if a.len() == 0 {
        assert(current + a =~= current);
    } else {
        let rest = a.drop_first();
        let r = escaped(rest);
        let step: int = if escapable(a[0]) {
            2
        } else {
            1
        };
        assert(s[i + 0] == e[0]);
        if escapable(a[0]) {
            assert(s[i + 1] == e[1]);
        }
        assert forall|k: int| 0 <= k < r.len() implies s[i + step + k] == #[trigger] r[k] by {
            assert(e[k + step] == r[k]);
            assert(s[i + (k + step)] == e[k + step]);
        }
        assert(current.push(a[0]) + rest =~= current + a);
        lemma_reads_escaped(s, i + step, rest, current.push(a[0]));
    }
}

proof fn lemma_reads_line(s: Seq<char>, i: int, args: Seq<Seq<char>>)
    requires
        0 <= i <= s.len(),
        s.skip(i) == quoted_line(args),
    ensures
        tokens_from(s, i, Seq::empty(), false, false) == Some(args),
    decreases args.len(),
{
    let line = quoted_line(args);
    assert(s.skip(i).len() == s.len() - i);
    assert forall|k: int| 0 <= k < line.len() implies s[i + k] == #[trigger] line[k] by {
        assert(s.skip(i)[k] == line[k]);
    }
    if args.len() == 0 {
        assert(s.len() == i);
        assert(args =~= Seq::empty());
    } else {
        let a = args[0];
        let e = escaped(a);
        let n = e.len() as int;
        let q = quoted(a);
        assert forall|k: int| 0 <= k < q.len() implies s[i + k] == #[trigger] q[k] by {
            assert(line[k] == q[k]);
        }
        assert(s[i + 0] == q[0]);
        assert forall|k: int| 0 <= k < e.len() implies s[i + 1 + k] == #[trigger] e[k] by {
            assert(q[k + 1] == e[k]);
            assert(s[i + (k + 1)] == q[k + 1]);
        }
        assert(s[i + (n + 1)] == q[n + 1]);
        lemma_reads_escaped(s, i + 1, a, Seq::empty());
        assert(Seq::<char>::empty() + a =~= a);
        let end = i + n + 2;
        if args.len() == 1 {
            assert(s.len() == end);
            assert(seq![a] =~= args);
        } else {
            let rest = args.drop_first();
            assert(line[n + 2] == ' ');
            assert(s[i + (n + 2)] == ' ');
            assert(s.skip(end + 1) =~= quoted_line(rest)) by {
                assert forall|k: int| 0 <= k < quoted_line(rest).len() implies s.skip(end + 1)[k]
                    == #[trigger] quoted_line(rest)[k] by {
                    assert(line[k + n + 3] == quoted_line(rest)[k]);
                    assert(s[i + (k + n + 3)] == line[k + n + 3]);
                }
            }
            lemma_reads_line(s, end + 1, rest);
            assert(seq![a] + rest =~= args);
        }
    }
}

/// Quoted arguments, empty ones among them, are cut into the same arguments
/// again.
pub proof fn lemma_quoted_arguments_read_back(args: Seq<Seq<char>>)
    ensures
        tokens_of(quoted_line(args)) == Some(args),
{
    assert(quoted_line(args).skip(0) =~= quoted_line(args));
    lemma_reads_line(quoted_line(args), 0, args);
}

/// Does a line from `i` on end inside double quotes, if it starts inside them
/// or not?
pub open spec fn quote_stays_open(s: Seq<char>, i: int, inside: bool) -> bool
    decreases s.len() - i,
{
    if i >= s.len() {
        inside
    } else if inside && s[i] == '\\' && i + 1 < s.len() && escapable(s[i + 1]) {
        quote_stays_open(s, i + 2, true)
    } else if s[i] == '"' {
        quote_stays_open(s, i + 1, !inside)
    } else {
        quote_stays_open(s, i + 1, inside)
    }
}

proof fn lemma_open_from(s: Seq<char>, i: int, current: Seq<char>, begun: bool, inside: bool)
    ensures
        tokens_from(s, i, current, begun, inside) is None == quote_stays_open(s, i, inside),
    decreases s.len() - i,
{
    if i < s.len() {
        if inside {
            if s[i] == '"' {
                lemma_open_from(s, i + 1, current, begun, false);
            } else if s[i] == '\\' {
                if i + 1 < s.len() && escapable(s[i + 1]) {
                    lemma_open_from(s, i + 2, current.push(s[i + 1]), begun, true);
                } else {
                    lemma_open_from(s, i + 1, current.push('\\'), begun, true);
                }
            } else {
                lemma_open_from(s, i + 1, current.push(s[i]), begun, true);
            }
        } else if s[i] == '"' {
            lemma_open_from(s, i + 1, current, true, true);
        } else if text::white(s[i]) {
            if begun {
                lemma_open_from(s, i + 1, Seq::empty(), false, false);
            } else {
                lemma_open_from(s, i + 1, current, false, false);
            }
        } else {
            lemma_open_from(s, i + 1, current.push(s[i]), true, false);
        }
    }
}

/// A line gives no tokens if and only if it ends inside double quotes.
pub proof fn lemma_only_open_quotes_fail(s: Seq<char>)
    ensures
        tokens_of(s) is None == quote_stays_open(s, 0, false),
{
    lemma_open_from(s, 0, Seq::empty(), false, false);
}

/// The words of a text from `i` on, separated by whitespace, when `word` has
/// been read of one.
pub open spec fn words_from(s: Seq<char>, i: int, word: Seq<char>) -> Seq<Seq<char>>
    decreases s.len() - i,
{
    let head = if word.len() > 0 {
        seq![word]
    } else {
        Seq::empty()
    };
    if i >= s.len() {
        head
    } else if text::white(s[i]) {
        head + words_from(s, i + 1, Seq::empty())
    } else {
        words_from(s, i + 1, word.push(s[i]))
    }
}

proof fn lemma_words_from(s: Seq<char>, i: int, current: Seq<char>)
    requires
        0 <= i,
        forall|k: int| 0 <= k < s.len() ==> #[trigger] s[k] != '"',
    ensures
        tokens_from(s, i, current, current.len() > 0, false) == Some(words_from(s, i, current)),
    decreases s.len() - i,
{
    if i < s.len() {
        if text::white(s[i]) {
            let none = Seq::<char>::empty();
            lemma_words_from(s, i + 1, none);
            if current.len() == 0 {
                assert(current =~= none);
                assert(Seq::<Seq<char>>::empty() + words_from(s, i + 1, none) =~= words_from(
                    s,
                    i + 1,
                    none,
                ));
            }
        } else {
            lemma_words_from(s, i + 1, current.push(s[i]));
        }
    }
}

/// A line without double quotes is cut at whitespace alone; its backslashes are
/// kept.
pub proof fn lemma_unquoted_words(s: Seq<char>)
    requires
        forall|k: int| 0 <= k < s.len() ==> #[trigger] s[k] != '"',
    ensures
        tokens_of(s) == Some(words_from(s, 0, Seq::empty())),
{
    lemma_words_from(s, 0, Seq::empty());
}

/// A text with every percent sign doubled.
pub open spec fn doubled(t: Seq<char>) -> Seq<char>
    decreases t.len(),
{
    if t.len() == 0 {
        Seq::empty()
    } else if t[0] == '%' {
        seq!['%', '%'] + doubled(t.drop_first())
    } else {
        seq![t[0]] + doubled(t.drop_first())
    }
}

proof fn lemma_reads_doubled(s: Seq<char>, i: int, t: Seq<char>)
    requires
        0 <= i,
        s.len() == i + doubled(t).len(),
        forall|k: int| 0 <= k < doubled(t).len() ==> s[i + k] == #[trigger] doubled(t)[k],
    ensures
        without_codes(s, i) == t,
    decreases t.len(),
{
    let d = doubled(t);
    if t.len() == 0 {
        assert(t =~= Seq::empty());
    } else {
        let rest = t.drop_first();
        let r = doubled(rest);
        let step: int = if t[0] == '%' {
            2
        } else {
            1
        };
        assert(s[i + 0] == d[0]);
        if t[0] == '%' {
            assert(s[i + 1] == d[1]);
        }
        assert forall|k: int| 0 <= k < r.len() implies s[i + step + k] == #[trigger] r[k] by {
            assert(d[k + step] == r[k]);
            assert(s[i + (k + step)] == d[k + step]);
        }
        lemma_reads_doubled(s, i + step, rest);
        assert(seq![t[0]] + rest =~= t);
    }
}

/// A token with every percent sign doubled comes back as it was.
pub proof fn lemma_doubled_percent_reads_back(t: Seq<char>)
    ensures
        token_value(doubled(t)) == Some(t),
{
    let d = doubled(t);
    lemma_reads_doubled(d, 0, t);
    if t.len() > 0 && t[0] == '%' {
        assert(d[1] == '%');
    } else if t.len() > 0 {
        assert(d[0] == t[0]);
    }
}

proof fn lemma_codes_of_plain(t: Seq<char>, i: int)
    requires
        0 <= i <= t.len(),
        forall|k: int| 0 <= k < t.len() ==> #[trigger] t[k] != '%',
    ensures
        without_codes(t, i) == t.skip(i),
    decreases t.len() - i,
{
    if i < t.len() {
        lemma_codes_of_plain(t, i + 1);
        assert(seq![t[i]] + t.skip(i + 1) =~= t.skip(i));
    } else {
        assert(t.skip(i) =~= Seq::empty());
    }
}

/// A token is dropped if and only if it is exactly a field code, and a token
/// without a percent sign is kept as it is.
pub proof fn lemma_only_bare_codes_vanish(t: Seq<char>)
    ensures
        token_value(t) is None == (t.len() == 2 && t[0] == '%' && code_letter(t[1])),
        (forall|k: int| 0 <= k < t.len() ==> #[trigger] t[k] != '%') ==> token_value(t) == Some(t),
{
    if forall|k: int| 0 <= k < t.len() ==> #[trigger] t[k] != '%' {
        lemma_codes_of_plain(t, 0);
        assert(t.skip(0) =~= t);
    }
}

proof fn lemma_arguments_of_doubled(args: Seq<Seq<char>>)
    ensures
        arguments(args.map_values(|t: Seq<char>| doubled(t))) == args,
    decreases args.len(),
{
    let all = args.map_values(|t: Seq<char>| doubled(t));
    if args.len() == 0 {
        assert(args =~= Seq::empty());
    } else {
        lemma_arguments_of_doubled(args.drop_last());
        lemma_doubled_percent_reads_back(args.last());
        assert(all.drop_last() =~= args.drop_last().map_values(|t: Seq<char>| doubled(t)));
        assert(args.drop_last().push(args.last()) =~= args);
    }
}

/// Any command can be written as an `Exec=` value: with percent signs doubled
/// and each argument quoted, it reads back as itself.
pub proof fn lemma_written_command_reads_back(args: Seq<Seq<char>>)
    ensures
        command_of(quoted_line(args.map_values(|t: Seq<char>| doubled(t)))) == args,
{
    lemma_quoted_arguments_read_back(args.map_values(|t: Seq<char>| doubled(t)));
    lemma_arguments_of_doubled(args);
}

} // verus!
