//! Command names and descriptions, with their translations, read from the
//! doc comment of a command:
//!
//! ```text
//! /// `command-name` Command description
//! /// that can span multiple lines
//! ///
//! /// - `de` `kommando-name` Kommando Beschreibung
//! ///   welche ebenfalls mehrere Zeilen haben kann
//! /// - `fr` Command name translation is optional
//! ```
//!
//! Each doc line is given as its text, or as nothing where the doc attribute
//! holds no string literal. Errors name the doc line they arose on.

use convert_case::{Case, Casing};
use itertools::Itertools;
use unicode_script::{Script, UnicodeScript};
use vstd::prelude::*;

use crate::text::{
    append_str, chars_of, decimal_text, find_char, slice_chars, str_eq, string_of, trim, trim_start, trim_start_spec,
    trim_spec, usize_to_string,
};

verus! {

// ---------------------------------------------------------------------------
// Characters of command names.

/// The scripts that command names accept besides letters and digits.
#[derive(Clone, Copy, Debug, PartialEq, Eq, Structural)]
pub enum ScriptClass {
    Devanagari,
    Thai,
    Other,
}

/// What `char::to_lowercase` yields for `c`.
pub uninterp spec fn lowercase_of(c: char) -> Seq<char>;

/// What `char::is_alphanumeric` answers for `c`.
pub uninterp spec fn alphanumeric(c: char) -> bool;

/// The class of the Unicode script of `c`, as `unicode_script` finds it.
pub uninterp spec fn script_class_of(c: char) -> ScriptClass;

/// What `convert_case` makes of `s` in kebab case.
pub uninterp spec fn kebab_case_of(s: Seq<char>) -> Seq<char>;

/// `char::to_lowercase`, collected: the characters of the lowercase form of `c`.
#[verifier::external_body]
fn char_to_lowercase(c: char) -> (r: Vec<char>)
    ensures
        r@ == lowercase_of(c),
{
    c.to_lowercase().collect()
}

/// `char::is_alphanumeric`: whether `c` is alphabetic or numeric.
#[verifier::external_body]
fn char_is_alphanumeric(c: char) -> (r: bool)
    ensures
        r == alphanumeric(c),
{
    c.is_alphanumeric()
}

/// `UnicodeScript::script` of `unicode_script`, told apart as Devanagari,
/// Thai or another script.
#[verifier::external_body]
fn script_class(c: char) -> (r: ScriptClass)
    ensures
        r == script_class_of(c),
{
    match c.script() {
        Script::Devanagari => ScriptClass::Devanagari,
        Script::Thai => ScriptClass::Thai,
        _ => ScriptClass::Other,
    }
}

/// `Casing::to_case` of `convert_case` with `Case::Kebab`.
#[verifier::external_body]
fn kebab_case(s: &str) -> (r: String)
    ensures
        r@ == kebab_case_of(s@),
{
    s.to_case(Case::Kebab)
}

/// `Itertools::sorted` then `Itertools::dedup`, collected: the characters of
/// `chars` in ascending order, each once.
#[verifier::external_body]
fn sorted_distinct(chars: Vec<char>) -> (r: Vec<char>)
    ensures
        forall|i: int, j: int| 0 <= i < j < r@.len() ==> (r@[i] as u32) < (r@[j] as u32),
        forall|c: char| r@.contains(c) <==> chars@.contains(c),
{
    chars.into_iter().sorted().dedup().collect()
}

/// What `Debug` formatting of a `str` writes for `s`: the text in double
/// quotes, with characters escaped as that formatting escapes them (double
/// quotes, backslashes and characters that are not printable, but not single
/// quotes).
pub uninterp spec fn debug_text(s: Seq<char>) -> Seq<char>;

/// The character needs no escape in `Debug` formatting of a `str`: it is
/// printable ASCII other than a double quote or a backslash.
pub open spec fn debug_plain(c: char) -> bool {
    ' ' <= c <= '~' && c != '"' && c != '\\'
}

/// `Debug` formatting of a `str`.
///
/// Trusted: the text is named; it starts and ends with a double quote, and
/// text made only of printable ASCII other than `"` and `\` stands between
/// the quotes unescaped, as std's `Debug` for `str` writes it.
#[verifier::external_body]
fn debug_quoted(s: &str) -> (r: String)
    ensures
        r@ == debug_text(s@),
        r@.len() >= 2 && r@[0] == '"' && r@.last() == '"',
        (forall|i: int| 0 <= i < s@.len() ==> debug_plain(#[trigger] s@[i])) ==> r@ == seq!['"'] + s@ + seq!['"'],
{
    format!("{s:?}")
}

/// The lowercase form of `c` is `c` itself.
pub open spec fn lowercase_same(c: char) -> bool {
    lowercase_of(c) == seq![c]
}

/// Whether the lowercase form of `c` is exactly `c`.
pub fn lowercase_is_same(c: char) -> (r: bool)
    ensures
        r == lowercase_same(c),
{
    let lower = char_to_lowercase(c);
    let r = lower.len() == 1 && lower[0] == c;
    assert(r ==> lower@ =~= seq![c]);
    r
}

/// Whether `c` may stand in a command name: `-`, `_` and `'`, and lowercase
/// letters and digits, Devanagari and Thai included.
pub open spec fn valid_command_char(c: char) -> bool {
    ||| c == '-'
    ||| c == '_'
    ||| c == '\''
    ||| lowercase_same(c) && (alphanumeric(c) || script_class_of(c) != ScriptClass::Other)
}

/// Whether `c` may stand in a command name.
pub fn is_valid_command_char(c: char) -> (r: bool)
    ensures
        r == valid_command_char(c),
{
    if c == '-' || c == '_' || c == '\'' {
        true
    } else if !lowercase_is_same(c) {
        false
    } else if char_is_alphanumeric(c) {
        true
    } else {
        match script_class(c) {
            ScriptClass::Devanagari | ScriptClass::Thai => true,
            ScriptClass::Other => false,
        }
    }
}

// ---------------------------------------------------------------------------
// Errors.

/// What a checked string is.
#[derive(Clone, Copy, Debug, PartialEq, Eq, Structural)]
pub enum DocField {
    Name,
    Description,
}

/// Why a doc comment could not be read. Each error names the doc line that
/// it is reported at.
#[derive(Debug)]
pub enum DocError {
    /// The doc attribute holds no string literal.
    Malformed { line: usize },
    /// A backtick opens inline code that no backtick closes.
    UnclosedBacktick { line: usize },
    /// The name or description is empty.
    Empty { field: DocField, line: usize },
    /// The name or description has more characters than allowed.
    TooLong { field: DocField, max_len: usize, len: usize, line: usize },
    /// The name holds characters that command names cannot hold: these, in
    /// ascending order, each once.
    InvalidChars { chars: Vec<char>, line: usize },
    /// A translation entry does not start with a locale in backticks.
    LocaleExpected { line: usize },
    /// A translation entry names no locale that Discord knows.
    InvalidLocale { locale: String, line: usize },
    /// Two translation entries name the same locale.
    DuplicateLocale { locale: String, line: usize },
    /// A line after the description continues no translation entry.
    DashExpected { line: usize },
}

/// A doc comment error as plain values.
pub enum DocErrorView {
    Malformed(int),
    UnclosedBacktick(int),
    Empty(DocField, int),
    TooLong(DocField, int, int, int),
    InvalidChars(Seq<char>, int),
    LocaleExpected(int),
    InvalidLocale(Seq<char>, int),
    DuplicateLocale(Seq<char>, int),
    DashExpected(int),
}

impl View for DocError {
    type V = DocErrorView;

    open spec fn view(&self) -> DocErrorView {
        match self {
            DocError::Malformed { line } => DocErrorView::Malformed(*line as int),
            DocError::UnclosedBacktick { line } => DocErrorView::UnclosedBacktick(*line as int),
            DocError::Empty { field, line } => DocErrorView::Empty(*field, *line as int),
            DocError::TooLong { field, max_len, len, line } => DocErrorView::TooLong(
                *field,
                *max_len as int,
                *len as int,
                *line as int,
            ),
            DocError::InvalidChars { chars, line } => DocErrorView::InvalidChars(chars@, *line as int),
            DocError::LocaleExpected { line } => DocErrorView::LocaleExpected(*line as int),
            DocError::InvalidLocale { locale, line } => DocErrorView::InvalidLocale(locale@, *line as int),
            DocError::DuplicateLocale { locale, line } => DocErrorView::DuplicateLocale(
                locale@,
                *line as int,
            ),
            DocError::DashExpected { line } => DocErrorView::DashExpected(*line as int),
        }
    }
}

/// The word for a field in messages.
pub open spec fn field_word(field: DocField) -> Seq<char> {
    match field {
        DocField::Name => "name"@,
        DocField::Description => "description"@,
    }
}

/// The message of a doc comment error.
pub open spec fn doc_error_message(e: DocErrorView) -> Seq<char> {
    match e {
        DocErrorView::Malformed(_) => "malformed doc comment"@,
        DocErrorView::UnclosedBacktick(_) => "unclosed backtick"@,
        DocErrorView::Empty(field, _) => field_word(field) + " cannot be empty"@,
        DocErrorView::TooLong(field, max_len, len, _) => field_word(field) + " must be at most "@
            + decimal_text(max_len as nat) + " characters ("@ + decimal_text(len as nat) + " > "@
            + decimal_text(max_len as nat) + ")"@,
        DocErrorView::InvalidChars(chars, _) => "characters "@ + debug_text(chars)
            + " cannot be used in command names"@,
        DocErrorView::LocaleExpected(_) => "locale expected"@,
        DocErrorView::InvalidLocale(locale, _) => "invalid locale: "@ + locale
            + "; see https://discord.com/developers/docs/reference#locales"@,
        DocErrorView::DuplicateLocale(locale, _) => "duplicate locale: "@ + locale,
        DocErrorView::DashExpected(_) => "dash expected to start a new localization entry"@,
    }
}

/// Appends the word for `field`.
fn append_field_word(chars: &mut Vec<char>, field: DocField)
    ensures
        final(chars)@ == old(chars)@ + field_word(field),
{
    match field {
        DocField::Name => append_str(chars, "name"),
        DocField::Description => append_str(chars, "description"),
    }
}

impl DocError {
    /// The message of this error.
    pub fn message(&self) -> (r: String)
        ensures
            r@ == doc_error_message(self@),
    {
        let mut chars: Vec<char> = Vec::new();
        match self {
            DocError::Malformed { .. } => {
                append_str(&mut chars, "malformed doc comment");
            },
            DocError::UnclosedBacktick { .. } => {
                append_str(&mut chars, "unclosed backtick");
            },
            DocError::Empty { field, .. } => {
                append_field_word(&mut chars, *field);
                append_str(&mut chars, " cannot be empty");
            },
            DocError::TooLong { field, max_len, len, .. } => {
                append_field_word(&mut chars, *field);
                append_str(&mut chars, " must be at most ");
                let m = usize_to_string(*max_len);
                append_str(&mut chars, m.as_str());
                append_str(&mut chars, " characters (");
                let l = usize_to_string(*len);
                append_str(&mut chars, l.as_str());
                append_str(&mut chars, " > ");
                append_str(&mut chars, m.as_str());
                append_str(&mut chars, ")");
            },
            DocError::InvalidChars { chars: invalid, .. } => {
                append_str(&mut chars, "characters ");
                let text = string_of(invalid.as_slice());
                let quoted = debug_quoted(text.as_str());
                append_str(&mut chars, quoted.as_str());
                append_str(&mut chars, " cannot be used in command names");
            },
            DocError::LocaleExpected { .. } => {
                append_str(&mut chars, "locale expected");
            },
            DocError::InvalidLocale { locale, .. } => {
                append_str(&mut chars, "invalid locale: ");
                append_str(&mut chars, locale.as_str());
                append_str(&mut chars, "; see https://discord.com/developers/docs/reference#locales");
            },
            DocError::DuplicateLocale { locale, .. } => {
                append_str(&mut chars, "duplicate locale: ");
                append_str(&mut chars, locale.as_str());
            },
            DocError::DashExpected { .. } => {
                append_str(&mut chars, "dash expected to start a new localization entry");
            },
        }
        string_of(chars.as_slice())
    }
}

// ---------------------------------------------------------------------------
// Checks of names and descriptions.

/// The error for a string `s` of field `field` that must have between one and
/// `max_len` characters, if it has not.
pub open spec fn string_problem(max_len: int, field: DocField, s: Seq<char>, line: int) -> Option<
    DocErrorView,
> {
    if s.len() == 0 {
        Some(DocErrorView::Empty(field, line))
    } else if s.len() > max_len {
        Some(DocErrorView::TooLong(field, max_len, s.len() as int, line))
    } else {
        None
    }
}

/// Checks that `s` has between one and `max_len` characters.
pub fn check_string(max_len: usize, field: DocField, s: &[char], line: usize) -> (r: Result<(), DocError>)
    ensures
        match string_problem(max_len as int, field, s@, line as int) {
            Some(e) => r matches Err(x) && x@ == e,
            None => r is Ok,
        },
{
    let len = s.len();
    if len == 0 {
        Err(DocError::Empty { field, line })
    } else if len > max_len {
        Err(DocError::TooLong { field, max_len, len, line })
    } else {
        Ok(())
    }
}

/// The characters of `name` that command names cannot hold are exactly those
/// of `chars`, ascending and each once.
pub open spec fn lists_invalid_chars(name: Seq<char>, chars: Seq<char>) -> bool {
    &&& forall|i: int, j: int| 0 <= i < j < chars.len() ==> (chars[i] as u32) < (chars[j] as u32)
    &&& forall|c: char| #[trigger] chars.contains(c) <==> (name.contains(c) && !valid_command_char(c))
}

/// What is wrong with the command name `name`, if anything.
pub open spec fn name_problem(name: Seq<char>, line: int) -> Option<DocErrorView> {
    match string_problem(32, DocField::Name, name, line) {
        Some(e) => Some(e),
        None => if forall|i: int| 0 <= i < name.len() ==> valid_command_char(#[trigger] name[i]) {
            None
        } else {
            Some(DocErrorView::InvalidChars(invalid_chars_of(name), line))
        },
    }
}

/// The characters of `name` that command names cannot hold, ascending and
/// each once.
pub open spec fn invalid_chars_of(name: Seq<char>) -> Seq<char> {
    choose|chars: Seq<char>| lists_invalid_chars(name, chars)
}

/// Two ascending lists of the same characters are the same list.
proof fn lemma_ascending_unique(a: Seq<char>, b: Seq<char>)
    requires
        forall|i: int, j: int| 0 <= i < j < a.len() ==> (a[i] as u32) < (a[j] as u32),
        forall|i: int, j: int| 0 <= i < j < b.len() ==> (b[i] as u32) < (b[j] as u32),
        forall|c: char| a.contains(c) <==> b.contains(c),
    ensures
        a == b,
    decreases a.len() + b.len(),
{
    if a.len() == 0 {
        if b.len() > 0 {
            assert(b.contains(b[0]));
        }
        assert(a =~= b);
    } else if b.len() == 0 {
        assert(a.contains(a[0]));
    } else {
        assert(a.contains(a[0]));
        assert(b.contains(b[0]));
        let ia = choose|i: int| 0 <= i < a.len() && a[i] == b[0];
        let ib = choose|i: int| 0 <= i < b.len() && b[i] == a[0];
        if ia > 0 {
            assert((a[0] as u32) < (a[ia] as u32));
        }
        if ib > 0 {
            assert((b[0] as u32) < (b[ib] as u32));
        }
        assert(a[0] == b[0]);
        assert forall|c: char| a.drop_first().contains(c) <==> b.drop_first().contains(c) by {
            if a.drop_first().contains(c) {
                let k = choose|k: int| 0 <= k < a.drop_first().len() && a.drop_first()[k] == c;
                assert(a[k + 1] == c);
                assert((a[0] as u32) < (a[k + 1] as u32));
                assert(b.contains(c));
                let l = choose|l: int| 0 <= l < b.len() && b[l] == c;
                assert(l != 0);
                assert(b.drop_first()[l - 1] == c);
            }
            if b.drop_first().contains(c) {
                let k = choose|k: int| 0 <= k < b.drop_first().len() && b.drop_first()[k] == c;
                assert(b[k + 1] == c);
                assert((b[0] as u32) < (b[k + 1] as u32));
                assert(a.contains(c));
                let l = choose|l: int| 0 <= l < a.len() && a[l] == c;
                assert(l != 0);
                assert(a.drop_first()[l - 1] == c);
            }
        }
        lemma_ascending_unique(a.drop_first(), b.drop_first());
        assert(a =~= seq![a[0]] + a.drop_first());
        assert(b =~= seq![b[0]] + b.drop_first());
    }
}

/// Checks that `name` has between one and 32 characters, all of which
/// command names can hold.
pub fn check_name(name: &[char], line: usize) -> (r: Result<(), DocError>)
    ensures
        match name_problem(name@, line as int) {
            Some(e) => r matches Err(x) && x@ == e,
            None => r is Ok,
        },
{
    check_string(32, DocField::Name, name, line)?;
    let mut invalid: Vec<char> = Vec::new();
    let mut i: usize = 0;
    while i < name.len()
        invariant
            i <= name@.len(),
            forall|c: char| invalid@.contains(c) <==> appears_invalid(name@, i as int, c),
        decreases name@.len() - i,
    {
        let c = name[i];
        let ghost old_inv = invalid@;
        if !is_valid_command_char(c) {
            invalid.push(c);
        }
        proof {
            assert forall|d: char| invalid@.contains(d) <==> appears_invalid(name@, i + 1, d) by {
                if appears_invalid(name@, i as int, d) {
                    let j = choose|j: int| 0 <= j < i && #[trigger] name@[j] == d && !valid_command_char(d);
                    assert(name@[j] == d);
                }
                if appears_invalid(name@, i + 1, d) {
                    let j = choose|j: int| 0 <= j < i + 1 && #[trigger] name@[j] == d && !valid_command_char(d);
                    if j < i {
                        assert(appears_invalid(name@, i as int, d));
                    }
                }
                if d == c && !valid_command_char(c) {
                    assert(name@[i as int] == d);
                }
                if !valid_command_char(c) {
                    assert(invalid@ == old_inv.push(c));
                    if old_inv.contains(d) {
                        let k = choose|k: int| 0 <= k < old_inv.len() && old_inv[k] == d;
                        assert(invalid@[k] == d);
                    }
                    if invalid@.contains(d) {
                        let k = choose|k: int| 0 <= k < invalid@.len() && invalid@[k] == d;
                        if k < old_inv.len() {
                            assert(old_inv[k] == d);
                        }
                    }
                    assert(invalid@[old_inv.len() as int] == c);
                }
            }
        }
        i += 1;
    }
    assert forall|c: char| invalid@.contains(c) <==> (name@.contains(c) && !valid_command_char(c)) by {
        if name@.contains(c) && !valid_command_char(c) {
            let j = choose|j: int| 0 <= j < name@.len() && name@[j] == c;
            assert(name@[j] == c);
        }
        if appears_invalid(name@, name@.len() as int, c) {
            let j = choose|j: int| 0 <= j < name@.len() && #[trigger] name@[j] == c && !valid_command_char(c);
            assert(name@[j] == c);
        }
    }
    if invalid.len() == 0 {
        assert forall|j: int| 0 <= j < name@.len() implies valid_command_char(#[trigger] name@[j]) by {
            if !valid_command_char(name@[j]) {
                assert(name@.contains(name@[j]));
                assert(!invalid@.contains(name@[j]));
            }
        }
        Ok(())
    } else {
        let chars = sorted_distinct(invalid);
        assert(invalid@.contains(invalid@[0]));
        assert(name@.contains(invalid@[0]));
        let ghost w = choose|j: int| 0 <= j < name@.len() && name@[j] == invalid@[0];
        assert(!valid_command_char(name@[w]));
        assert(lists_invalid_chars(name@, chars@));
        assert(exists|cs: Seq<char>| lists_invalid_chars(name@, cs));
        proof {
            let other = invalid_chars_of(name@);
            assert(lists_invalid_chars(name@, other));
            assert forall|c: char| chars@.contains(c) <==> other.contains(c) by {
                assert(chars@.contains(c) <==> (name@.contains(c) && !valid_command_char(c)));
                assert(other.contains(c) <==> (name@.contains(c) && !valid_command_char(c)));
            }
            lemma_ascending_unique(chars@, other);
        }
        Err(DocError::InvalidChars { chars, line })
    }
}

/// Some character of `name` before position `n` is `c`, which command names
/// cannot hold.
pub open spec fn appears_invalid(name: Seq<char>, n: int, c: char) -> bool {
    exists|j: int| 0 <= j < n && #[trigger] name[j] == c && !valid_command_char(c)
}

/// Checks that `description` has between one and 100 characters.
pub fn check_description(description: &[char], line: usize) -> (r: Result<(), DocError>)
    ensures
        match string_problem(100, DocField::Description, description@, line as int) {
            Some(e) => r matches Err(x) && x@ == e,
            None => r is Ok,
        },
{
    check_string(100, DocField::Description, description, line)
}

// ---------------------------------------------------------------------------
// Inline code and dashes.

/// `k` is the position of the first `c` in `s`.
pub open spec fn first_at(s: Seq<char>, c: char, k: int) -> bool {
    &&& 0 <= k < s.len()
    &&& s[k] == c
    &&& forall|j: int| 0 <= j < k ==> s[j] != c
}

/// The inline code at the start of `line` and the rest of the line after it,
/// without leading white space; `None` for an unclosed backtick. A line that
/// does not start with a backtick has no inline code and is its own rest.
pub open spec fn inline_code(line: Seq<char>) -> Option<(Option<Seq<char>>, Seq<char>)> {
    if line.len() > 0 && line[0] == '`' {
        let rest = line.drop_first();
        if exists|k: int| first_at(rest, '`', k) {
            let k = choose|k: int| first_at(rest, '`', k);
            Some((Some(rest.take(k)), trim_start_spec(rest.skip(k + 1))))
        } else {
            None
        }
    } else {
        Some((None, line))
    }
}

/// Splits the inline code off the start of `line`.
pub fn extract_inline_code(line: &[char], line_no: usize) -> (r: Result<(Option<Vec<char>>, Vec<char>), DocError>)
    ensures
        match inline_code(line@) {
            Some((code, rest)) => r matches Ok((c, x)) && x@ == rest && match code {
                Some(k) => c matches Some(v) && v@ == k,
                None => c is None,
            },
            None => r matches Err(e) && e@ == DocErrorView::UnclosedBacktick(line_no as int),
        },
{
    if line.len() > 0 && line[0] == '`' {
        let n = line.len();
        let rest = slice_chars(line, 1, n);
        assert(rest@ =~= line@.drop_first());
        match find_char(rest.as_slice(), '`') {
            Some(k) => {
                assert(first_at(rest@, '`', k as int));
                let code = slice_chars(rest.as_slice(), 0, k);
                let after = slice_chars(rest.as_slice(), k + 1, rest.len());
                let tail = trim_start(after.as_slice());
                proof {
                    let kk = choose|kk: int| first_at(rest@, '`', kk);
                    if kk < k {
                        assert(rest@[kk] != '`');
                    }
                    if k < kk {
                        assert(rest@[k as int] != '`');
                    }
                }
                assert(code@ =~= rest@.take(k as int));
                assert(after@ =~= rest@.skip(k + 1));
                Ok((Some(code), tail))
            },
            None => {
                assert(!exists|k: int| first_at(rest@, '`', k));
                Err(DocError::UnclosedBacktick { line: line_no })
            },
        }
    } else {
        let mut same: Vec<char> = Vec::new();
        same.extend_from_slice(line);
        assert(same@ =~= line@);
        Ok((None, same))
    }
}

/// Whether `line` starts with a dash, and the line without the dash and the
/// white space after it.
pub open spec fn strip_dash_spec(line: Seq<char>) -> (bool, Seq<char>) {
    if line.len() > 0 && line[0] == '-' {
        (true, trim_start_spec(line.drop_first()))
    } else {
        (false, line)
    }
}

/// Strips the dash from a line `- foo`, and says whether it did.
fn strip_dash_chars(line: &[char]) -> (r: (bool, Vec<char>))
    ensures
        (r.0, r.1@) == strip_dash_spec(line@),
{
    if line.len() > 0 && line[0] == '-' {
        let n = line.len();
        let rest = slice_chars(line, 1, n);
        assert(rest@ =~= line@.drop_first());
        (true, trim_start(rest.as_slice()))
    } else {
        let mut same: Vec<char> = Vec::new();
        same.extend_from_slice(line);
        assert(same@ =~= line@);
        (false, same)
    }
}

/// Strips the `-` from `- foo` and returns `true` if a `-` was stripped.
pub fn strip_dash(line: &str) -> (r: (bool, String))
    ensures
        (r.0, r.1@) == strip_dash_spec(line@),
{
    let chars = chars_of(line);
    let (dash, rest) = strip_dash_chars(chars.as_slice());
    (dash, string_of(rest.as_slice()))
}


// ---------------------------------------------------------------------------
// Locales.

/// The codes of the locales that Discord accepts, in ascending order of their
/// text.
pub open spec fn locale_table() -> Seq<Seq<char>> {
    seq![
        seq!['b', 'g'], seq!['c', 's'], seq!['d', 'a'], seq!['d', 'e'], seq!['e', 'l'],
        seq!['e', 'n', '-', 'G', 'B'], seq!['e', 'n', '-', 'U', 'S'],
        seq!['e', 's', '-', '4', '1', '9'], seq!['e', 's', '-', 'E', 'S'], seq!['f', 'i'],
        seq!['f', 'r'], seq!['h', 'i'], seq!['h', 'r'], seq!['h', 'u'], seq!['i', 'd'],
        seq!['i', 't'], seq!['j', 'a'], seq!['k', 'o'], seq!['l', 't'], seq!['n', 'l'],
        seq!['n', 'o'], seq!['p', 'l'], seq!['p', 't', '-', 'B', 'R'], seq!['r', 'o'],
        seq!['r', 'u'], seq!['s', 'v', '-', 'S', 'E'], seq!['t', 'h'], seq!['t', 'r'],
        seq!['u', 'k'], seq!['v', 'i'], seq!['z', 'h', '-', 'C', 'N'], seq!['z', 'h', '-', 'T', 'W'],
    ]
}

/// `code` is one of the locale codes.
pub open spec fn known_locale(code: Seq<char>) -> bool {
    exists|i: int| 0 <= i < 32 && #[trigger] locale_table()[i] == code
}

/// `i` is the first position of `code` in the locale table.
pub open spec fn locale_at(code: Seq<char>, i: int) -> bool {
    &&& 0 <= i < 32
    &&& locale_table()[i] == code
    &&& forall|j: int| 0 <= j < i ==> locale_table()[j] != code
}

/// The position of a known locale code in the locale table.
pub open spec fn locale_pos(code: Seq<char>) -> int {
    choose|i: int| locale_at(code, i)
}

/// The locale codes, as static strings.
fn locale_codes() -> (r: Vec<&'static str>)
    ensures
        r@.len() == 32,
        forall|i: int| 0 <= i < 32 ==> (#[trigger] r@[i])@ == locale_table()[i],
{
    proof {
        reveal_strlit("bg");
        reveal_strlit("cs");
        reveal_strlit("da");
        reveal_strlit("de");
        reveal_strlit("el");
        reveal_strlit("en-GB");
        reveal_strlit("en-US");
        reveal_strlit("es-419");
        reveal_strlit("es-ES");
        reveal_strlit("fi");
        reveal_strlit("fr");
        reveal_strlit("hi");
        reveal_strlit("hr");
        reveal_strlit("hu");
        reveal_strlit("id");
        reveal_strlit("it");
        reveal_strlit("ja");
        reveal_strlit("ko");
        reveal_strlit("lt");
        reveal_strlit("nl");
        reveal_strlit("no");
        reveal_strlit("pl");
        reveal_strlit("pt-BR");
        reveal_strlit("ro");
        reveal_strlit("ru");
        reveal_strlit("sv-SE");
        reveal_strlit("th");
        reveal_strlit("tr");
        reveal_strlit("uk");
        reveal_strlit("vi");
        reveal_strlit("zh-CN");
        reveal_strlit("zh-TW");
    }
    let r = vec![
        "bg", "cs", "da", "de", "el", "en-GB", "en-US", "es-419", "es-ES", "fi", "fr", "hi", "hr",
        "hu", "id", "it", "ja", "ko", "lt", "nl", "no", "pl", "pt-BR", "ro", "ru", "sv-SE", "th",
        "tr", "uk", "vi", "zh-CN", "zh-TW",
    ];
    assert(r@.map_values(|s: &'static str| s@) =~~= locale_table());
    assert forall|i: int| 0 <= i < 32 implies (#[trigger] r@[i])@ == locale_table()[i] by {
        assert(r@.map_values(|s: &'static str| s@)[i] == r@[i]@);
    }
    r
}

/// The position of `locale` among the locale codes; fails for a string that
/// is no locale code.
pub fn parse_locale(locale: &str, line: usize) -> (r: Result<usize, DocError>)
    ensures
        match r {
            Ok(i) => locale_at(locale@, i as int),
            Err(e) => !known_locale(locale@) && e@ == DocErrorView::InvalidLocale(locale@, line as int),
        },
{
    let codes = locale_codes();
    let mut i: usize = 0;
    while i < 32
        invariant
            i <= 32,
            codes@.len() == 32,
            forall|k: int| 0 <= k < 32 ==> (#[trigger] codes@[k])@ == locale_table()[k],
            forall|j: int| 0 <= j < i ==> locale_table()[j] != locale@,
        decreases 32 - i,
    {
        if str_eq(codes[i], locale) {
            assert(codes@[i as int]@ == locale_table()[i as int]);
            return Ok(i);
        }
        assert(codes@[i as int]@ == locale_table()[i as int]);
        i += 1;
    }
    let text = string_of(chars_of(locale).as_slice());
    Err(DocError::InvalidLocale { locale: text, line })
}

// ---------------------------------------------------------------------------
// Reading a doc comment.

/// A text with its translations, by locale code in ascending order of the
/// codes.
#[derive(Debug)]
pub struct Localized {
    pub default: String,
    pub localizations: Vec<(&'static str, String)>,
}

/// The name and description of a command or option.
#[derive(Debug)]
pub struct NameDescription {
    pub name: Localized,
    pub description: Localized,
}

/// A text with its translations, as plain values.
pub struct LocalizedView {
    pub default: Seq<char>,
    pub localizations: Seq<(Seq<char>, Seq<char>)>,
}

/// A name and description, as plain values.
pub struct NameDescriptionView {
    pub name: LocalizedView,
    pub description: LocalizedView,
}

impl View for Localized {
    type V = LocalizedView;

    open spec fn view(&self) -> LocalizedView {
        LocalizedView {
            default: self.default@,
            localizations: self.localizations@.map_values(|e: (&'static str, String)| (e.0@, e.1@)),
        }
    }
}

impl View for NameDescription {
    type V = NameDescriptionView;

    open spec fn view(&self) -> NameDescriptionView {
        NameDescriptionView { name: self.name@, description: self.description@ }
    }
}

/// The doc lines as plain values: each line's text, or nothing for a doc
/// attribute without a string literal.
pub open spec fn doc_lines_view(lines: Seq<Option<String>>) -> Seq<Option<Seq<char>>> {
    lines.map_values(|o: Option<String>| match o {
        Some(s) => Some(s@),
        None => None,
    })
}

/// `l` appended to `d` with a space between them, unless `d` is empty.
pub open spec fn join_line(d: Seq<char>, l: Seq<char>) -> Seq<char> {
    if d.len() == 0 {
        l
    } else {
        d + seq![' '] + l
    }
}

/// The description that starts with `d` and goes on with the lines from `i`
/// up to the first empty one, and the position after that empty line.
pub open spec fn desc_phase(lines: Seq<Option<Seq<char>>>, i: int, d: Seq<char>) -> Result<
    (Seq<char>, int),
    DocErrorView,
>
    decreases lines.len() - i,
{
    if i >= lines.len() {
        Ok((d, lines.len() as int))
    } else {
        match lines[i] {
            None => Err(DocErrorView::Malformed(i)),
            Some(t) => {
                let l = trim_spec(t);
                if l.len() == 0 {
                    Ok((d, i + 1))
                } else {
                    desc_phase(lines, i + 1, join_line(d, l))
                }
            },
        }
    }
}

/// The translations read so far, by position in the locale table: the
/// translated names, the translated descriptions with the line of their
/// entry, and the locale of the last entry.
pub struct LocState {
    pub names: Seq<Option<Seq<char>>>,
    pub descs: Seq<Option<(Seq<char>, int)>>,
    pub last: Option<int>,
}

/// No translations.
pub open spec fn empty_loc_state() -> LocState {
    LocState {
        names: Seq::new(32, |i: int| None),
        descs: Seq::new(32, |i: int| None),
        last: None,
    }
}

/// The translations after the line `l` at position `i`: an entry `- `code`
/// `name` description` or a continuation of the last entry's description.
pub open spec fn loc_line(l: Seq<char>, i: int, st: LocState) -> Result<LocState, DocErrorView> {
    let (dash, rest) = strip_dash_spec(l);
    if dash {
        match inline_code(rest) {
            None => Err(DocErrorView::UnclosedBacktick(i)),
            Some((None, _)) => Err(DocErrorView::LocaleExpected(i)),
            Some((Some(code), rest2)) => {
                if !known_locale(code) {
                    Err(DocErrorView::InvalidLocale(code, i))
                } else {
                    let r = locale_pos(code);
                    match inline_code(rest2) {
                        None => Err(DocErrorView::UnclosedBacktick(i)),
                        Some((name, desc)) => {
                            if st.descs[r] is Some {
                                Err(DocErrorView::DuplicateLocale(code, i))
                            } else {
                                Ok(
                                    LocState {
                                        names: match name {
                                            Some(n) => st.names.update(r, Some(n)),
                                            None => st.names,
                                        },
                                        descs: st.descs.update(r, Some((desc, i))),
                                        last: Some(r),
                                    },
                                )
                            }
                        },
                    }
                }
            },
        }
    } else {
        match st.last {
            None => Err(DocErrorView::DashExpected(i)),
            Some(r) => {
                let (d, at) = st.descs[r]->0;
                Ok(LocState { descs: st.descs.update(r, Some((join_line(d, l), at))), ..st })
            },
        }
    }
}

/// The translations after the lines from `i` on.
pub open spec fn loc_phase(lines: Seq<Option<Seq<char>>>, i: int, st: LocState) -> Result<
    LocState,
    DocErrorView,
>
    decreases lines.len() - i,
{
    if i >= lines.len() {
        Ok(st)
    } else {
        match lines[i] {
            None => Err(DocErrorView::Malformed(i)),
            Some(t) => match loc_line(trim_spec(t), i, st) {
                Ok(st2) => loc_phase(lines, i + 1, st2),
                Err(e) => Err(e),
            },
        }
    }
}

/// The first problem, in the order of the locale codes from position `r` on,
/// with a translated description.
pub open spec fn first_bad(descs: Seq<Option<(Seq<char>, int)>>, r: int) -> Option<DocErrorView>
    decreases 32 - r,
{
    if r >= 32 {
        None
    } else {
        match descs[r] {
            Some((d, at)) => match string_problem(100, DocField::Description, d, at) {
                Some(e) => Some(e),
                None => first_bad(descs, r + 1),
            },
            None => first_bad(descs, r + 1),
        }
    }
}

/// The translated texts of the first `n` locales, with their codes, in the
/// order of the codes.
pub open spec fn ordered_upto(m: Seq<Option<Seq<char>>>, n: int) -> Seq<(Seq<char>, Seq<char>)>
    decreases n,
{
    if n <= 0 {
        Seq::empty()
    } else {
        ordered_upto(m, n - 1) + match m[n - 1] {
            Some(t) => seq![(locale_table()[n - 1], t)],
            None => Seq::empty(),
        }
    }
}

/// The descriptions alone.
pub open spec fn desc_texts(descs: Seq<Option<(Seq<char>, int)>>) -> Seq<Option<Seq<char>>> {
    descs.map_values(|o: Option<(Seq<char>, int)>| match o {
        Some((d, _)) => Some(d),
        None => None,
    })
}

/// The name of a command without a name in its doc comment: its identifier
/// without the group prefix, in kebab case.
pub open spec fn default_name(ident: Seq<char>, group: Option<Seq<char>>) -> Seq<char> {
    kebab_case_of(
        match group {
            Some(g) => ident.skip(g.len() as int),
            None => ident,
        },
    )
}

/// The doc comment gives no name, so the default name is used.
pub open spec fn needs_default_name(lines: Seq<Option<Seq<char>>>) -> bool {
    lines.len() == 0 || (lines[0] matches Some(t) && inline_code(trim_spec(t)) matches Some((None, _)))
}

/// What the doc comment `lines` of the command `ident` in group `group` says.
pub open spec fn parse_spec(lines: Seq<Option<Seq<char>>>, ident: Seq<char>, group: Option<Seq<char>>) -> Result<
    NameDescriptionView,
    DocErrorView,
> {
    if lines.len() == 0 {
        Ok(
            NameDescriptionView {
                name: LocalizedView { default: default_name(ident, group), localizations: Seq::empty() },
                description: LocalizedView { default: seq!['n', '/', 'a'], localizations: Seq::empty() },
            },
        )
    } else {
        match lines[0] {
            None => Err(DocErrorView::Malformed(0)),
            Some(t) => match inline_code(trim_spec(t)) {
                None => Err(DocErrorView::UnclosedBacktick(0)),
                Some((code, rest)) => {
                    let name = match code {
                        Some(n) => n,
                        None => default_name(ident, group),
                    };
                    match name_problem(name, 0) {
                        Some(e) => Err(e),
                        None => match desc_phase(lines, 1, rest) {
                            Err(e) => Err(e),
                            Ok((desc, next)) => match string_problem(100, DocField::Description, desc, 0) {
                                Some(e) => Err(e),
                                None => match loc_phase(lines, next, empty_loc_state()) {
                                    Err(e) => Err(e),
                                    Ok(st) => match first_bad(st.descs, 0) {
                                        Some(e) => Err(e),
                                        None => Ok(
                                            NameDescriptionView {
                                                name: LocalizedView {
                                                    default: name,
                                                    localizations: ordered_upto(st.names, 32),
                                                },
                                                description: LocalizedView {
                                                    default: desc,
                                                    localizations: ordered_upto(desc_texts(st.descs), 32),
                                                },
                                            },
                                        ),
                                    },
                                },
                            },
                        },
                    }
                },
            },
        }
    }
}


/// The text of an optional string slice.
pub open spec fn opt_text(s: Option<&str>) -> Option<Seq<char>> {
    match s {
        Some(t) => Some(t@),
        None => None,
    }
}

/// A code that is the first at two positions is at one position.
proof fn lemma_locale_at_unique(code: Seq<char>, i: int, j: int)
    requires
        locale_at(code, i),
        locale_at(code, j),
    ensures
        i == j,
{
    if i < j {
        assert(locale_table()[i] != code);
    }
    if j < i {
        assert(locale_table()[j] != code);
    }
}

/// The default name of the command `ident` in group `group`.
fn command_default_name(ident: &str, group: Option<&str>) -> (r: String)
    requires
        group matches Some(g) ==> g@.is_prefix_of(ident@),
    ensures
        r@ == default_name(ident@, opt_text(group)),
{
    match group {
        Some(g) => {
            let chars = chars_of(ident);
            let n = chars_of(g).len();
            let rest = slice_chars(chars.as_slice(), n, chars.len());
            assert(rest@ =~= ident@.skip(g@.len() as int));
            let text = string_of(rest.as_slice());
            kebab_case(text.as_str())
        },
        None => kebab_case(ident),
    }
}

/// The trimmed text of doc line `i`.
fn doc_line(lines: &Vec<Option<String>>, i: usize) -> (r: Result<Vec<char>, DocError>)
    requires
        i < lines@.len(),
    ensures
        match doc_lines_view(lines@)[i as int] {
            Some(t) => r matches Ok(v) && v@ == trim_spec(t),
            None => r matches Err(e) && e@ == DocErrorView::Malformed(i as int),
        },
{
    match &lines[i] {
        Some(text) => {
            let chars = chars_of(text.as_str());
            Ok(trim(chars.as_slice()))
        },
        None => Err(DocError::Malformed { line: i }),
    }
}

/// Appends `l` to `d`, with a space between them unless `d` is empty.
fn join_into(d: &mut Vec<char>, l: Vec<char>)
    ensures
        final(d)@ == join_line(old(d)@, l@),
{
    let ghost lv = l@;
    if d.len() > 0 {
        d.push(' ');
    }
    let mut l = l;
    d.append(&mut l);
    assert(d@ =~= join_line(old(d)@, lv)) by {
        if old(d)@.len() > 0 {
            assert(old(d)@ + seq![' '] + lv =~= old(d)@.push(' ') + lv);
        }
    }
}

/// The description that starts with `first` and goes on with the lines from
/// the second up to the first empty one, and the position after that line.
fn description_lines(lines: &Vec<Option<String>>, first: Vec<char>) -> (r: Result<(Vec<char>, usize), DocError>)
    ensures
        match desc_phase(doc_lines_view(lines@), 1, first@) {
            Ok((d, next)) => r matches Ok((x, n)) && x@ == d && n == next,
            Err(e) => r matches Err(x) && x@ == e,
        },
{
    let ghost lv = doc_lines_view(lines@);
    let ghost want = desc_phase(lv, 1, first@);
    let mut desc = first;
    let mut i: usize = 1;
    while i < lines.len()
        invariant
            lv == doc_lines_view(lines@),
            want == desc_phase(lv, 1, first@),
            1 <= i,
            desc_phase(lv, i as int, desc@) == want,
        decreases lines@.len() - i,
    {
        let l = match doc_line(lines, i) {
            Ok(l) => l,
            Err(e) => {
                return Err(e);
            },
        };
        if l.len() == 0 {
            return Ok((desc, i + 1));
        }
        join_into(&mut desc, l);
        i += 1;
    }
    Ok((desc, lines.len()))
}

/// The translations read so far, by position in the locale table.
struct LocEntries {
    names: Vec<Option<Vec<char>>>,
    descs: Vec<Option<(Vec<char>, usize)>>,
    last: Option<usize>,
}

/// The plain view of translated names.
pub open spec fn names_view(v: Seq<Option<Vec<char>>>) -> Seq<Option<Seq<char>>> {
    v.map_values(|o: Option<Vec<char>>| match o {
        Some(x) => Some(x@),
        None => None,
    })
}

/// The plain view of translated descriptions with the lines of their entries.
pub open spec fn descs_view(v: Seq<Option<(Vec<char>, usize)>>) -> Seq<Option<(Seq<char>, int)>> {
    v.map_values(|o: Option<(Vec<char>, usize)>| match o {
        Some((x, at)) => Some((x@, at as int)),
        None => None,
    })
}

impl LocEntries {
    spec fn state(&self) -> LocState {
        LocState {
            names: names_view(self.names@),
            descs: descs_view(self.descs@),
            last: match self.last {
                Some(r) => Some(r as int),
                None => None,
            },
        }
    }

    spec fn wf(&self) -> bool {
        &&& self.names@.len() == 32
        &&& self.descs@.len() == 32
        &&& self.last matches Some(r) ==> r < 32 && self.descs@[r as int] is Some
    }

    fn empty() -> (r: LocEntries)
        ensures
            r.wf(),
            r.state() == empty_loc_state(),
    {
        let mut names: Vec<Option<Vec<char>>> = Vec::new();
        let mut descs: Vec<Option<(Vec<char>, usize)>> = Vec::new();
        let mut k: usize = 0;
        while k < 32
            invariant
                k <= 32,
                names@.len() == k,
                descs@.len() == k,
                forall|j: int| 0 <= j < k ==> names@[j] is None && descs@[j] is None,
            decreases 32 - k,
        {
            names.push(None);
            descs.push(None);
            k += 1;
        }
        let r = LocEntries { names, descs, last: None };
        assert(r.state().names =~= empty_loc_state().names);
        assert(r.state().descs =~= empty_loc_state().descs);
        r
    }
}

/// The translations after the doc line `l` at position `i`.
fn translation_line(l: Vec<char>, i: usize, st: LocEntries) -> (r: Result<LocEntries, DocError>)
    requires
        st.wf(),
    ensures
        match loc_line(l@, i as int, st.state()) {
            Ok(s) => r matches Ok(x) && x.wf() && x.state() == s,
            Err(e) => r matches Err(x) && x@ == e,
        },
{
    let (dash, rest) = strip_dash_chars(l.as_slice());
    if dash {
        let (code, rest2) = match extract_inline_code(rest.as_slice(), i) {
            Ok(p) => p,
            Err(e) => {
                return Err(e);
            },
        };
        let code = match code {
            Some(c) => c,
            None => {
                return Err(DocError::LocaleExpected { line: i });
            },
        };
        let code_text = string_of(code.as_slice());
        let r = match parse_locale(code_text.as_str(), i) {
            Ok(r) => r,
            Err(e) => {
                return Err(e);
            },
        };
        proof {
            assert(known_locale(code@)) by {
                assert(locale_table()[r as int] == code@);
            }
            lemma_locale_at_unique(code@, r as int, locale_pos(code@));
        }
        let (name, desc) = match extract_inline_code(rest2.as_slice(), i) {
            Ok(p) => p,
            Err(e) => {
                return Err(e);
            },
        };
        let LocEntries { mut names, mut descs, last: _ } = st;
        assert(descs_view(descs@)[r as int] == match descs@[r as int] {
            Some((x, at)) => Some((x@, at as int)),
            None => None::<(Seq<char>, int)>,
        });
        if descs[r].is_some() {
            return Err(DocError::DuplicateLocale { locale: code_text, line: i });
        }
        let ghost names_before = names_view(names@);
        let ghost descs_before = descs_view(descs@);
        match name {
            Some(n) => {
                let ghost nv = n@;
                names.remove(r);
                names.insert(r, Some(n));
                assert(names_view(names@) =~= names_before.update(r as int, Some(nv)));
            },
            None => {},
        }
        let ghost dv = desc@;
        descs.remove(r);
        descs.insert(r, Some((desc, i)));
        assert(descs_view(descs@) =~= descs_before.update(r as int, Some((dv, i as int))));
        Ok(LocEntries { names, descs, last: Some(r) })
    } else {
        match st.last {
            None => Err(DocError::DashExpected { line: i }),
            Some(r) => {
                let LocEntries { names, mut descs, last } = st;
                let ghost descs_before = descs_view(descs@);
                assert(descs_before[r as int] == match descs@[r as int] {
                    Some((x, at)) => Some((x@, at as int)),
                    None => None::<(Seq<char>, int)>,
                });
                // The last entry always has a description, so `old` is never `None`.
                let old = descs.remove(r);
                match old {
                    Some((mut d, at)) => {
                        let ghost joined = join_line(d@, l@);
                        join_into(&mut d, l);
                        descs.insert(r, Some((d, at)));
                        assert(descs_view(descs@) =~= descs_before.update(
                            r as int,
                            Some((joined, at as int)),
                        ));
                        Ok(LocEntries { names, descs, last })
                    },
                    None => Err(DocError::DashExpected { line: i }),
                }
            },
        }
    }
}

/// The translations after the doc lines from `start` on.
fn translation_lines(lines: &Vec<Option<String>>, start: usize) -> (r: Result<LocEntries, DocError>)
    ensures
        match loc_phase(doc_lines_view(lines@), start as int, empty_loc_state()) {
            Ok(s) => r matches Ok(x) && x.wf() && x.state() == s,
            Err(e) => r matches Err(x) && x@ == e,
        },
{
    let ghost lv = doc_lines_view(lines@);
    let ghost want = loc_phase(lv, start as int, empty_loc_state());
    let mut st = LocEntries::empty();
    let mut i = start;
    while i < lines.len()
        invariant
            lv == doc_lines_view(lines@),
            want == loc_phase(lv, start as int, empty_loc_state()),
            st.wf(),
            loc_phase(lv, i as int, st.state()) == want,
        decreases lines@.len() - i,
    {
        let l = match doc_line(lines, i) {
            Ok(l) => l,
            Err(e) => {
                return Err(e);
            },
        };
        st = match translation_line(l, i, st) {
            Ok(s) => s,
            Err(e) => {
                return Err(e);
            },
        };
        i += 1;
    }
    Ok(st)
}

/// Checks the translated descriptions, in the order of their locale codes.
fn check_translations(descs: &Vec<Option<(Vec<char>, usize)>>) -> (r: Result<(), DocError>)
    requires
        descs@.len() == 32,
    ensures
        match first_bad(descs_view(descs@), 0) {
            Some(e) => r matches Err(x) && x@ == e,
            None => r is Ok,
        },
{
    let ghost dv = descs_view(descs@);
    let mut k: usize = 0;
    while k < 32
        invariant
            k <= 32,
            descs@.len() == 32,
            dv == descs_view(descs@),
            first_bad(dv, k as int) == first_bad(dv, 0),
        decreases 32 - k,
    {
        assert(dv[k as int] == match descs@[k as int] {
            Some((x, at)) => Some((x@, at as int)),
            None => None::<(Seq<char>, int)>,
        });
        match &descs[k] {
            Some((d, at)) => {
                match check_description(d.as_slice(), *at) {
                    Ok(()) => {},
                    Err(e) => {
                        return Err(e);
                    },
                }
            },
            None => {},
        }
        k += 1;
    }
    Ok(())
}

/// The translated texts with their locale codes, in the order of the codes.
fn ordered_texts(texts: Vec<Option<Vec<char>>>) -> (r: Vec<(&'static str, String)>)
    requires
        texts@.len() == 32,
    ensures
        r@.map_values(|e: (&'static str, String)| (e.0@, e.1@)) == ordered_upto(names_view(texts@), 32),
{
    let ghost all = names_view(texts@);
    let codes = locale_codes();
    let mut out: Vec<(&'static str, String)> = Vec::new();
    let mut rest = texts;
    let mut k: usize = 0;
    while k < 32
        invariant
            k <= 32,
            codes@.len() == 32,
            forall|j: int| 0 <= j < 32 ==> (#[trigger] codes@[j])@ == locale_table()[j],
            all.len() == 32,
            rest@.len() == 32 - k,
            names_view(rest@) == all.skip(k as int),
            out@.map_values(|e: (&'static str, String)| (e.0@, e.1@)) == ordered_upto(all, k as int),
        decreases 32 - k,
    {
        let ghost before = names_view(rest@);
        let ghost out_before = out@.map_values(|e: (&'static str, String)| (e.0@, e.1@));
        assert(before[0] == all[k as int]);
        let item = rest.remove(0);
        assert(names_view(rest@) =~= before.drop_first());
        assert(before.drop_first() =~= all.skip(k + 1));
        match item {
            Some(t) => {
                let text = string_of(t.as_slice());
                out.push((codes[k], text));
                assert(codes@[k as int]@ == locale_table()[k as int]);
                assert(out@.map_values(|e: (&'static str, String)| (e.0@, e.1@)) =~= out_before.push(
                    (locale_table()[k as int], t@),
                ));
            },
            None => {},
        }
        assert(ordered_upto(all, k + 1) == ordered_upto(all, k as int) + match all[k as int] {
            Some(t) => seq![(locale_table()[k as int], t)],
            None => Seq::<(Seq<char>, Seq<char>)>::empty(),
        });
        assert(out@.map_values(|e: (&'static str, String)| (e.0@, e.1@)) =~= ordered_upto(all, k + 1));
        k += 1;
    }
    out
}

/// The descriptions alone, dropping the lines of their entries.
fn description_texts(descs: Vec<Option<(Vec<char>, usize)>>) -> (r: Vec<Option<Vec<char>>>)
    ensures
        r@.len() == descs@.len(),
        names_view(r@) == desc_texts(descs_view(descs@)),
{
    let ghost all = desc_texts(descs_view(descs@));
    let ghost n = descs@.len();
    let mut out: Vec<Option<Vec<char>>> = Vec::new();
    let mut rest = descs;
    while rest.len() > 0
        invariant
            all.len() == n,
            out@.len() + rest@.len() == n,
            names_view(out@) == all.take(out@.len() as int),
            desc_texts(descs_view(rest@)) == all.skip(out@.len() as int),
        decreases rest@.len(),
    {
        let ghost before = desc_texts(descs_view(rest@));
        let ghost out_before = names_view(out@);
        let ghost m: int = out@.len() as int;
        let item = rest.remove(0);
        assert(desc_texts(descs_view(rest@)) =~= before.drop_first());
        match item {
            Some((d, _)) => {
                out.push(Some(d));
            },
            None => {
                out.push(None);
            },
        }
        assert(names_view(out@) =~= out_before.push(before[0]));
        assert(all.take(m + 1) =~= all.take(m).push(all[m]));
        assert(before.drop_first() =~= all.skip(m + 1));
    }
    assert(all.take(n as int) =~= all);
    out
}

/// Reads the name, description and translations of the command `ident` in
/// group `group` from its doc lines.
///
/// Without a name in backticks at the start of the first line, the name is
/// `ident` without the group prefix, in kebab case; without doc lines, the
/// description is `n/a`.
pub fn parse(lines: &Vec<Option<String>>, ident: &str, group: Option<&str>) -> (r: Result<
    NameDescription,
    DocError,
>)
    requires
        needs_default_name(doc_lines_view(lines@)) ==> (group matches Some(g) ==> g@.is_prefix_of(ident@)),
    ensures
        match parse_spec(doc_lines_view(lines@), ident@, opt_text(group)) {
            Ok(v) => r matches Ok(x) && x@ == v,
            Err(e) => r matches Err(x) && x@ == e,
        },
{
    let ghost lv = doc_lines_view(lines@);
    if lines.len() == 0 {
        let name = command_default_name(ident, group);
        proof {
            reveal_strlit("n/a");
        }
        let na = string_of(chars_of("n/a").as_slice());
        assert(na@ =~= seq!['n', '/', 'a']);
        let r = NameDescription {
            name: Localized { default: name, localizations: Vec::new() },
            description: Localized { default: na, localizations: Vec::new() },
        };
        assert(r.name@.localizations =~= Seq::<(Seq<char>, Seq<char>)>::empty());
        assert(r.description@.localizations =~= Seq::<(Seq<char>, Seq<char>)>::empty());
        return Ok(r);
    }
    let first = match doc_line(lines, 0) {
        Ok(l) => l,
        Err(e) => {
            return Err(e);
        },
    };
    let (code, rest) = match extract_inline_code(first.as_slice(), 0) {
        Ok(p) => p,
        Err(e) => {
            return Err(e);
        },
    };
    let name = match code {
        Some(n) => n,
        None => chars_of(command_default_name(ident, group).as_str()),
    };
    match check_name(name.as_slice(), 0) {
        Ok(()) => {},
        Err(e) => {
            return Err(e);
        },
    }
    let (desc, next) = match description_lines(lines, rest) {
        Ok(p) => p,
        Err(e) => {
            return Err(e);
        },
    };
    match check_description(desc.as_slice(), 0) {
        Ok(()) => {},
        Err(e) => {
            return Err(e);
        },
    }
    let st = match translation_lines(lines, next) {
        Ok(s) => s,
        Err(e) => {
            return Err(e);
        },
    };
    match check_translations(&st.descs) {
        Ok(()) => {},
        Err(e) => {
            return Err(e);
        },
    }
    let LocEntries { names, descs, last: _ } = st;
    let ghost descs_state = descs_view(descs@);
    let texts = description_texts(descs);
    Ok(
        NameDescription {
            name: Localized { default: string_of(name.as_slice()), localizations: ordered_texts(names) },
            description: Localized {
                default: string_of(desc.as_slice()),
                localizations: ordered_texts(texts),
            },
        },
    )
}


// ---------------------------------------------------------------------------
// Every translated name comes with a translated description.

/// Some translation in `s` is for the locale code `code`.
pub open spec fn has_code(s: Seq<(Seq<char>, Seq<char>)>, code: Seq<char>) -> bool {
    exists|j: int| 0 <= j < s.len() && (#[trigger] s[j]).0 == code
}

/// Each locale with a translated name has a translated description.
spec fn names_have_descs(st: LocState) -> bool {
    &&& st.names.len() == 32
    &&& st.descs.len() == 32
    &&& st.last matches Some(r) ==> 0 <= r < 32
    &&& forall|r: int| 0 <= r < 32 && (#[trigger] st.names[r]) is Some ==> st.descs[r] is Some
}

/// A known locale code has a first position in the table.
proof fn lemma_locale_pos(code: Seq<char>)
    requires
        known_locale(code),
    ensures
        locale_at(code, locale_pos(code)),
{
    let k = choose|i: int| 0 <= i < 32 && #[trigger] locale_table()[i] == code;
    lemma_first_locale_exists(code, k);
}

/// Where a code stands at position `k`, it has a first position.
proof fn lemma_first_locale_exists(code: Seq<char>, k: int)
    requires
        0 <= k < 32,
        locale_table()[k] == code,
    ensures
        exists|i: int| locale_at(code, i),
    decreases k,
{
    if exists|j: int| 0 <= j < k && #[trigger] locale_table()[j] == code {
        let j = choose|j: int| 0 <= j < k && #[trigger] locale_table()[j] == code;
        lemma_first_locale_exists(code, j);
    } else {
        assert(locale_at(code, k));
    }
}

/// A translation line keeps a name only with a description.
proof fn lemma_loc_line_keeps(l: Seq<char>, i: int, st: LocState)
    requires
        names_have_descs(st),
    ensures
        loc_line(l, i, st) matches Ok(st2) ==> names_have_descs(st2),
{
    let (dash, rest) = strip_dash_spec(l);
    if dash {
        if let Some((Some(code), rest2)) = inline_code(rest) {
            if known_locale(code) {
                lemma_locale_pos(code);
                let r = locale_pos(code);
                if let Some((name, desc)) = inline_code(rest2) {
                    if st.descs[r] is None {
                        let names2 = match name {
                            Some(n) => st.names.update(r, Some(n)),
                            None => st.names,
                        };
                        let descs2 = st.descs.update(r, Some((desc, i)));
                        assert forall|q: int| 0 <= q < 32 && (#[trigger] names2[q]) is Some implies descs2[q] is Some by {
                            if q != r {
                                assert(names2[q] == st.names[q]);
                                assert(descs2[q] == st.descs[q]);
                            }
                        }
                    }
                }
            }
        }
    } else {
        if let Some(r) = st.last {
            let (d, at) = st.descs[r]->0;
            let descs2 = st.descs.update(r, Some((join_line(d, l), at)));
            assert forall|q: int| 0 <= q < 32 && (#[trigger] st.names[q]) is Some implies descs2[q] is Some by {
                if q != r {
                    assert(descs2[q] == st.descs[q]);
                }
            }
        }
    }
}

/// Translation lines keep names only with descriptions.
proof fn lemma_loc_phase_keeps(lines: Seq<Option<Seq<char>>>, i: int, st: LocState)
    requires
        names_have_descs(st),
    ensures
        loc_phase(lines, i, st) matches Ok(st2) ==> names_have_descs(st2),
    decreases lines.len() - i,
{
    if i < lines.len() {
        if let Some(t) = lines[i] {
            lemma_loc_line_keeps(trim_spec(t), i, st);
            if let Ok(st2) = loc_line(trim_spec(t), i, st) {
                lemma_loc_phase_keeps(lines, i + 1, st2);
            }
        }
    }
}

/// The codes of the ordered names are codes of the ordered descriptions.
proof fn lemma_ordered_codes(names: Seq<Option<Seq<char>>>, descs: Seq<Option<(Seq<char>, int)>>, n: int)
    requires
        0 <= n <= 32,
        names.len() == 32,
        descs.len() == 32,
        forall|r: int| 0 <= r < 32 && (#[trigger] names[r]) is Some ==> descs[r] is Some,
    ensures
        forall|k: int|
            0 <= k < ordered_upto(names, n).len() ==> has_code(
                ordered_upto(desc_texts(descs), n),
                (#[trigger] ordered_upto(names, n)[k]).0,
            ),
    decreases n,
{
    if n > 0 {
        lemma_ordered_codes(names, descs, n - 1);
        let a = ordered_upto(names, n - 1);
        let d = ordered_upto(desc_texts(descs), n - 1);
        let dt = desc_texts(descs);
        assert(dt[n - 1] is Some <==> descs[n - 1] is Some);
        assert forall|k: int| 0 <= k < ordered_upto(names, n).len() implies has_code(
            ordered_upto(desc_texts(descs), n),
            (#[trigger] ordered_upto(names, n)[k]).0,
        ) by {
            let full = ordered_upto(desc_texts(descs), n);
            if k < a.len() {
                assert(ordered_upto(names, n)[k] == a[k]);
                assert(has_code(d, a[k].0));
                let j = choose|j: int| 0 <= j < d.len() && (#[trigger] d[j]).0 == a[k].0;
                assert(full[j] == d[j]);
            } else {
                assert(names[n - 1] is Some);
                assert(ordered_upto(names, n)[k].0 == locale_table()[n - 1]);
                assert(full[d.len() as int].0 == locale_table()[n - 1]);
            }
        }
    }
}

/// The text `first` followed by each of `parts`, each set off by a single
/// space from what precedes it (no space after an empty start).
pub open spec fn spaced(first: Seq<char>, parts: Seq<Seq<char>>) -> Seq<char>
    decreases parts.len(),
{
    if parts.len() == 0 {
        first
    } else {
        join_line(spaced(first, parts.drop_last()), parts.last())
    }
}

/// The trimmed texts of the doc lines from `lo` up to `hi`.
pub open spec fn trimmed_lines(lines: Seq<Option<Seq<char>>>, lo: int, hi: int) -> Seq<Seq<char>> {
    Seq::new(
        (hi - lo) as nat,
        |j: int|
            match lines[lo + j] {
                Some(t) => trim_spec(t),
                None => Seq::empty(),
            },
    )
}

/// Joining a first part onto the start is spacing it as the first part.
proof fn lemma_spaced_first(d: Seq<char>, l: Seq<char>, rest: Seq<Seq<char>>)
    ensures
        spaced(join_line(d, l), rest) == spaced(d, seq![l] + rest),
    decreases rest.len(),
{
    let all = seq![l] + rest;
    if rest.len() > 0 {
        lemma_spaced_first(d, l, rest.drop_last());
        assert(all.drop_last() =~= seq![l] + rest.drop_last());
        assert(all.last() == rest.last());
        assert(spaced(d, all) == join_line(spaced(d, all.drop_last()), all.last()));
    } else {
        assert(all =~= seq![l]);
        assert(all.drop_last() =~= Seq::<Seq<char>>::empty());
        assert(all.last() == l);
        assert(spaced(d, all.drop_last()) == d);
        assert(spaced(d, all) == join_line(spaced(d, all.drop_last()), all.last()));
    }
}

/// The description goes on with every line from `i` up to the first empty
/// one, at `k`, or to the end.
proof fn lemma_desc_phase_joins(lines: Seq<Option<Seq<char>>>, i: int, d: Seq<char>, k: int)
    requires
        0 <= i <= k <= lines.len(),
        forall|j: int| i <= j < k ==> ((#[trigger] lines[j]) matches Some(t) && trim_spec(t).len() > 0),
        k < lines.len() ==> (lines[k] matches Some(t) && trim_spec(t).len() == 0),
    ensures
        desc_phase(lines, i, d) == Ok::<(Seq<char>, int), DocErrorView>(
            (spaced(d, trimmed_lines(lines, i, k)), if k < lines.len() { k + 1 } else { lines.len() as int }),
        ),
    decreases k - i,
{
    if i == k {
        assert(trimmed_lines(lines, i, k) =~= Seq::<Seq<char>>::empty());
    } else {
        let t = lines[i]->0;
        assert(lines[i] matches Some(t) && trim_spec(t).len() > 0);
        let l = trim_spec(t);
        lemma_desc_phase_joins(lines, i + 1, join_line(d, l), k);
        lemma_spaced_first(d, l, trimmed_lines(lines, i + 1, k));
        assert(trimmed_lines(lines, i, k) =~= seq![l] + trimmed_lines(lines, i + 1, k));
    }
}

/// A command's description is the rest of its first doc line followed by
/// every later line up to the first empty one (or the last line), each
/// trimmed and set off by a single space.
pub proof fn lemma_description_joins_lines(
    lines: Seq<Option<Seq<char>>>,
    ident: Seq<char>,
    group: Option<Seq<char>>,
    k: int,
)
    requires
        1 <= k <= lines.len(),
        forall|j: int| 1 <= j < k ==> ((#[trigger] lines[j]) matches Some(t) && trim_spec(t).len() > 0),
        k < lines.len() ==> (lines[k] matches Some(t) && trim_spec(t).len() == 0),
    ensures
        parse_spec(lines, ident, group) matches Ok(v) ==> {
            &&& lines[0] matches Some(t)
            &&& inline_code(trim_spec(t)) matches Some((_, rest))
            &&& v.description.default == spaced(rest, trimmed_lines(lines, 1, k))
        },
{
    if let Some(t) = lines[0] {
        if let Some((_, rest)) = inline_code(trim_spec(t)) {
            lemma_desc_phase_joins(lines, 1, rest, k);
        }
    }
}

/// In what a doc comment says, every locale with a translated name also has
/// a translated description: a translation entry always gives a
/// description, and a name only with it.
pub proof fn lemma_translated_names_have_descriptions(
    lines: Seq<Option<Seq<char>>>,
    ident: Seq<char>,
    group: Option<Seq<char>>,
)
    ensures
        parse_spec(lines, ident, group) matches Ok(v) ==> forall|k: int|
            0 <= k < v.name.localizations.len() ==> has_code(
                v.description.localizations,
                (#[trigger] v.name.localizations[k]).0,
            ),
{
    if lines.len() > 0 {
        if let Some(t) = lines[0] {
            if let Some((code, rest)) = inline_code(trim_spec(t)) {
                if let Ok((desc, next)) = desc_phase(lines, 1, rest) {
                    let e = empty_loc_state();
                    assert(names_have_descs(e));
                    lemma_loc_phase_keeps(lines, next, e);
                    if let Ok(st) = loc_phase(lines, next, e) {
                        lemma_ordered_codes(st.names, st.descs, 32);
                    }
                }
            }
        }
    }
}

} // verus!
