use vstd::prelude::*;
use vstd::string::*;
use colored::Colorize;
use regex::Regex;
use crate::config::SearchSpec;
use crate::text::{occurs_at, all_ascii, ascii_lower, contains, contains_word};

verus! {

/// The regex crate's compiled expression, carried through opaquely.
#[verifier::external_type_specification]
#[verifier::external_body]
pub struct ExRegex(Regex);

/// The regex crate's compilation error, mapped to `CompileError`.
#[verifier::external_type_specification]
#[verifier::external_body]
pub struct ExRegexError(regex::Error);

/// Pattern compilation failed.
#[derive(Clone, Debug, PartialEq, Eq)]
pub enum CompileError {
    /// The expression built from the pattern was refused by the regex engine,
    /// with the engine's message.
    Invalid(String),
}

/// A character that the regex syntax gives a meaning of its own.
pub open spec fn is_meta(c: char) -> bool {
    c == '\\' || c == '.' || c == '+' || c == '*' || c == '?' || c == '(' || c == ')' || c
        == '|' || c == '[' || c == ']' || c == '{' || c == '}' || c == '^' || c == '$' || c == '#'
        || c == '&' || c == '-' || c == '~'
}

/// The pattern with a backslash before each meta character.
pub open spec fn escaped(s: Seq<char>) -> Seq<char>
    decreases s.len(),
{
    if s.len() == 0 {
        seq![]
    } else {
        (if is_meta(s[0]) {
            seq!['\\', s[0]]
        } else {
            seq![s[0]]
        }) + escaped(s.skip(1))
    }
}

pub open spec fn case_flag() -> Seq<char> {
    seq!['(', '?', 'i', ')']
}

/// An ASCII word boundary: `(?-u:\b)`.
pub open spec fn boundary_mark() -> Seq<char> {
    seq!['(', '?', '-', 'u', ':', '\\', 'b', ')']
}

/// The regular expression that a literal pattern compiles to.
pub open spec fn regex_source(pattern: Seq<char>, case_insensitive: bool, whole_words: bool) -> Seq<
    char,
> {
    let body = if whole_words {
        boundary_mark() + escaped(pattern) + boundary_mark()
    } else {
        escaped(pattern)
    };
    if case_insensitive {
        case_flag() + body
    } else {
        body
    }
}

pub open spec fn fold(s: Seq<char>, case_insensitive: bool) -> Seq<char> {
    if case_insensitive {
        ascii_lower(s)
    } else {
        s
    }
}

/// Inputs on which the literal search is stated in plain terms: every input
/// where case is respected, ASCII line and pattern where case is ignored.
pub open spec fn plainly_stated(
    line: Seq<char>,
    pattern: Seq<char>,
    case_insensitive: bool,
    whole_words: bool,
) -> bool {
    case_insensitive ==> all_ascii(line) && all_ascii(pattern)
}

/// The literal search: `pattern` occurs in `line` (as a whole word where asked),
/// comparing ASCII-lowercased text where case is ignored.
pub open spec fn literal_found(
    line: Seq<char>,
    pattern: Seq<char>,
    case_insensitive: bool,
    whole_words: bool,
) -> bool {
    if whole_words {
        contains_word(fold(line, case_insensitive), fold(pattern, case_insensitive))
    } else {
        contains(fold(line, case_insensitive), fold(pattern, case_insensitive))
    }
}

/// Whether the regex engine accepts the expression `source`.
pub uninterp spec fn regex_compiles(source: Seq<char>) -> bool;

/// No occurrence of `p` in `line` starts in `[from, to)`.
pub open spec fn no_occurrence_between(line: Seq<char>, p: Seq<char>, from: int, to: int) -> bool {
    forall|i: int| from <= i < to ==> !occurs_at(line, p, i)
}

/// For a non-empty `p`: the spans are the occurrences of `p` found left to
/// right, each search starting where the previous occurrence ended.
pub open spec fn leftmost_occurrences(line: Seq<char>, p: Seq<char>, spans: Seq<(int, int)>) -> bool {
    &&& forall|k: int|
        0 <= k < spans.len() ==> occurs_at(line, p, (#[trigger] spans[k]).0) && spans[k].1
            == spans[k].0 + p.len()
    &&& forall|k: int|
        0 <= k < spans.len() ==> no_occurrence_between(
            line,
            p,
            if k == 0 {
                0
            } else {
                spans[k - 1].1
            },
            (#[trigger] spans[k]).0,
        )
    &&& no_occurrence_between(
        line,
        p,
        if spans.len() == 0 {
            0
        } else {
            spans.last().1
        },
        line.len() + 1int,
    )
}

/// Whether the regex engine finds the expression `source` in `line`.
pub uninterp spec fn regex_finds(source: Seq<char>, line: Seq<char>) -> bool;

/// The character spans of the successive matches of `source` in `line`.
pub uninterp spec fn regex_spans(source: Seq<char>, line: Seq<char>) -> Seq<(int, int)>;

/// Spans lie inside a text of length `len`, in order and without overlap.
pub open spec fn spans_ordered(spans: Seq<(int, int)>, len: int) -> bool {
    &&& forall|k: int| 0 <= k < spans.len() ==> 0 <= (#[trigger] spans[k]).0 <= spans[k].1 <= len
    &&& forall|k: int| 0 < k < spans.len() ==> spans[k - 1].1 <= (#[trigger] spans[k]).0
}

pub open spec fn int_spans(v: Seq<(usize, usize)>) -> Seq<(int, int)> {
    v.map_values(|p: (usize, usize)| (p.0 as int, p.1 as int))
}

/// Relies on regex::escape: a backslash before each meta character.
#[verifier::external_body]
fn escape_literal(s: &str) -> (r: String)
    ensures
        r@ == escaped(s@),
{
    regex::escape(s)
}

/// Relies on regex::Regex::new to compile the expression; whether it is
/// accepted depends on the expression alone.
#[verifier::external_body]
fn compile_source(source: &str) -> (r: Result<Regex, regex::Error>)
    ensures
        r is Ok <==> regex_compiles(source@),
{
    Regex::new(source)
}

/// Relies on regex::Error's `Display`: the engine's message.
#[verifier::external_body]
fn error_message(e: &regex::Error) -> (r: String) {
    e.to_string()
}

/// A compiled literal pattern, built once and reused for every line.
///
/// The fields are private and set together by `Matcher::new` only, so
/// `regex` is always the compilation of `source`.
pub struct Matcher {
    pattern: String,
    case_insensitive: bool,
    whole_words: bool,
    source: String,
    regex: Regex,
}

impl Matcher {
    pub closed spec fn pattern(&self) -> Seq<char> {
        self.pattern@
    }

    pub closed spec fn case_insensitive(&self) -> bool {
        self.case_insensitive
    }

    pub closed spec fn whole_words(&self) -> bool {
        self.whole_words
    }

    /// The expression the matcher was compiled from.
    pub closed spec fn source(&self) -> Seq<char> {
        self.source@
    }

    pub closed spec fn wf(&self) -> bool {
        self.source@ == regex_source(self.pattern@, self.case_insensitive, self.whole_words)
    }

    /// Whether the matcher finds at least one occurrence in `line`.
    pub open spec fn finds(&self, line: Seq<char>) -> bool {
        regex_finds(self.source(), line)
    }

    /// Compiles a literal pattern: escaped, wrapped in word boundaries when
    /// `whole_words`, and case-insensitive when asked.
    pub fn new(pattern: &str, case_insensitive: bool, whole_words: bool) -> (r: Result<
        Matcher,
        CompileError,
    >)
        ensures
            r is Ok <==> regex_compiles(regex_source(pattern@, case_insensitive, whole_words)),
            r matches Ok(m) ==> m.wf() && m.pattern() == pattern@ && m.case_insensitive()
                == case_insensitive && m.whole_words() == whole_words && m.source()
                == regex_source(pattern@, case_insensitive, whole_words),
    {
        proof {
            reveal_strlit("(?i)");
            reveal_strlit("(?-u:\\b)");
        }
        let esc = escape_literal(pattern);
        let mut source = if case_insensitive {
            String::from_str("(?i)")
        } else {
            String::new()
        };
        if whole_words {
            source.append("(?-u:\\b)");
            source.append(esc.as_str());
            source.append("(?-u:\\b)");
        } else {
            source.append(esc.as_str());
        }
        assert(source@ == regex_source(pattern@, case_insensitive, whole_words));
        match compile_source(source.as_str()) {
            Ok(regex) => Ok(
                Matcher {
                    pattern: String::from_str(pattern),
                    case_insensitive,
                    whole_words,
                    source,
                    regex,
                },
            ),
            Err(e) => Err(CompileError::Invalid(error_message(&e))),
        }
    }

    /// Relies on regex::Regex::is_match on a matcher compiled from an escaped
    /// literal: it finds the literal text, `(?-u:\b)` is the boundary of
    /// `[A-Za-z0-9_]`, and Unicode simple case folding (one character for one)
    /// is ASCII lowercasing on ASCII text.
    #[verifier::external_body]
    pub(crate) fn search(&self, line: &str) -> (r: bool)
        requires
            self.wf(),
        ensures
            r == regex_finds(self.source(), line@),
            plainly_stated(line@, self.pattern(), self.case_insensitive(), self.whole_words())
                ==> r == literal_found(
                line@,
                self.pattern(),
                self.case_insensitive(),
                self.whole_words(),
            ),
            line@.len() == 0 && self.pattern().len() > 0 ==> !r,
    {
        self.regex.is_match(line)
    }

    /// Relies on regex::Regex::find_iter: successive non-overlapping matches,
    /// left to right; byte offsets are turned into character offsets. There
    /// is a match exactly when `is_match` finds one, and an escaped literal
    /// matches its own text, leftmost first.
    #[verifier::external_body]
    pub(crate) fn spans(&self, line: &str) -> (r: Vec<(usize, usize)>)
        requires
            self.wf(),
        ensures
            int_spans(r@) == regex_spans(self.source(), line@),
            spans_ordered(int_spans(r@), line@.len() as int),
            regex_finds(self.source(), line@) <==> r@.len() > 0,
            !self.case_insensitive() && !self.whole_words() && self.pattern().len() > 0
                ==> leftmost_occurrences(line@, self.pattern(), int_spans(r@)),
    {
        self.regex.find_iter(line).map(|m| (line[..m.start()].chars().count(), line[..m.end()].chars().count())).collect()
    }
}

/// Compiles the run's pattern once, with its case and word options.
pub fn get_regex(spec: &SearchSpec) -> (r: Result<Matcher, CompileError>)
    ensures
        r is Ok <==> regex_compiles(
            regex_source(spec.pattern@, spec.case_insensitive, spec.whole_words),
        ),
        r matches Ok(m) ==> m.wf() && m.pattern() == spec.pattern@ && m.case_insensitive()
            == spec.case_insensitive && m.whole_words() == spec.whole_words,
{
    Matcher::new(spec.pattern.as_str(), spec.case_insensitive, spec.whole_words)
}

pub open spec fn escape_char() -> char {
    '\u{1b}'
}

/// The bold red start sequence.
pub open spec fn emphasis_start() -> Seq<char> {
    seq![escape_char(), '[', '1', ';', '3', '1', 'm']
}

/// The sequence that resets all attributes.
pub open spec fn emphasis_end() -> Seq<char> {
    seq![escape_char(), '[', '0', 'm']
}

pub open spec fn emphasized(s: Seq<char>) -> Seq<char> {
    emphasis_start() + s + emphasis_end()
}

/// Relies on colored's bold red rendering: the text unchanged when coloring is
/// switched off, else wrapped in the start and reset sequences (only a reset
/// sequence inside the text would be rewritten).
#[verifier::external_body]
pub(crate) fn emphasize(s: &str) -> (r: String)
    ensures
        !contains(s@, emphasis_end()) ==> (r@ == s@ || r@ == emphasized(s@)),
{
    s.red().bold().to_string()
}

} // verus!
