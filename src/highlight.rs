use vstd::prelude::*;
use crate::matcher::{
    Matcher,
    emphasize,
    emphasized,
    emphasis_start,
    emphasis_end,
    escape_char,
    regex_finds,
    int_spans,
    literal_found,
    plainly_stated,
    regex_spans,
    spans_ordered,
};
use crate::text::{occurs_at, all_ascii, ascii_lower, chars_of, contains, is_ascii_char, push_range, string_of};

verus! {

/// A line is selected when the matcher's verdict differs from `invert`.
pub open spec fn selected(m: &Matcher, line: Seq<char>, invert: bool) -> bool {
    m.finds(line) != invert
}

/// Decides whether `line` is reported: the matcher finds an occurrence,
/// negated when `invert` is set.
pub fn is_match(line: &str, matcher: &Matcher, invert: bool) -> (r: bool)
    requires
        matcher.wf(),
    ensures
        r == selected(matcher, line@, invert),
        plainly_stated(line@, matcher.pattern(), matcher.case_insensitive(), matcher.whole_words())
            ==> r == (literal_found(
            line@,
            matcher.pattern(),
            matcher.case_insensitive(),
            matcher.whole_words(),
        ) != invert),
{
    let found = matcher.search(line);
    if invert {
        !found
    } else {
        found
    }
}

/// Inverting the selection is a plain negation of the verdict.
pub proof fn lemma_invert_negates(m: &Matcher, line: Seq<char>)
    ensures
        selected(m, line, true) == !selected(m, line, false),
{
}

/// Without word or case options the search is plain substring search, on
/// every line and pattern.
pub proof fn lemma_literal_is_substring(line: Seq<char>, pattern: Seq<char>)
    ensures
        plainly_stated(line, pattern, false, false),
        literal_found(line, pattern, false, false) == contains(line, pattern),
{
}

/// On ASCII text, ignoring case is the same as searching the ASCII-lowercased
/// line for the ASCII-lowercased pattern with case respected.
pub proof fn lemma_ignore_case_is_lowercasing(line: Seq<char>, pattern: Seq<char>, whole_words: bool)
    requires
        all_ascii(line),
        all_ascii(pattern),
    ensures
        plainly_stated(line, pattern, true, whole_words),
        plainly_stated(ascii_lower(line), ascii_lower(pattern), false, whole_words),
        literal_found(line, pattern, true, whole_words) == literal_found(
            ascii_lower(line),
            ascii_lower(pattern),
            false,
            whole_words,
        ),
{
    assert forall|i: int| 0 <= i < ascii_lower(line).len() implies is_ascii_char(
        #[trigger] ascii_lower(line)[i],
    ) by {
        assert(is_ascii_char(line[i]));
    }
}

pub open spec fn prev_end(spans: Seq<(int, int)>, i: int) -> int {
    if i <= 0 {
        0
    } else {
        spans[i - 1].1
    }
}

pub open spec fn span_text(line: Seq<char>, spans: Seq<(int, int)>, i: int) -> Seq<char> {
    line.subrange(spans[i].0, spans[i].1)
}

/// The text before span `i` followed by the span itself, emphasised where `marks` says.
pub open spec fn piece(line: Seq<char>, spans: Seq<(int, int)>, marks: Seq<bool>, i: int) -> Seq<
    char,
> {
    line.subrange(prev_end(spans, i), spans[i].0) + if marks[i] {
        emphasized(span_text(line, spans, i))
    } else {
        span_text(line, spans, i)
    }
}

/// The rendering of the first `k` spans and the text before them.
pub open spec fn rendered_prefix(
    line: Seq<char>,
    spans: Seq<(int, int)>,
    marks: Seq<bool>,
    k: int,
) -> Seq<char>
    decreases k,
{
    if k <= 0 {
        seq![]
    } else {
        rendered_prefix(line, spans, marks, k - 1) + piece(line, spans, marks, k - 1)
    }
}

/// The line with each span emphasised where `marks` says, and the text after
/// the last span appended unchanged.
pub open spec fn highlighted(line: Seq<char>, spans: Seq<(int, int)>, marks: Seq<bool>) -> Seq<
    char,
> {
    rendered_prefix(line, spans, marks, spans.len() as int) + line.subrange(
        prev_end(spans, spans.len() as int),
        line.len() as int,
    )
}

/// Emphasises every match of `matcher` in `line`, leaving the text between
/// and after the matches unchanged.
pub fn highlight(line: &str, matcher: &Matcher) -> (r: String)
    requires
        matcher.wf(),
    ensures
        spans_ordered(regex_spans(matcher.source(), line@), line@.len() as int),
        !matcher.finds(line@) ==> r@ == line@,
        !contains(line@, emphasis_end()) ==> exists|marks: Seq<bool>|
            marks.len() == regex_spans(matcher.source(), line@).len() && r@ == highlighted(
                line@,
                regex_spans(matcher.source(), line@),
                marks,
            ),
{
    let chars = chars_of(line);
    let found = matcher.spans(line);
    let ghost spans = int_spans(found@);
    let ghost clean = !contains(line@, emphasis_end());
    let ghost mut marks: Seq<bool> = seq![];
    let mut out: Vec<char> = Vec::new();
    let mut last: usize = 0;
    let mut i: usize = 0;
    while i < found.len()
        invariant
            spans == int_spans(found@),
            spans_ordered(spans, chars@.len() as int),
            chars@ == line@,
            0 <= i <= found.len(),
            last as int == prev_end(spans, i as int),
            last <= chars.len(),
            marks.len() == i,
            clean == !contains(line@, emphasis_end()),
            found@.len() == 0 ==> out@.len() == 0,
            clean ==> out@ == rendered_prefix(line@, spans, marks, i as int),
        decreases found.len() - i,
    {
        let (s, e) = found[i];
        assert(spans[i as int] == (s as int, e as int));
        assert(last <= s) by {
            if i > 0 {
                assert(spans[i - 1].1 <= spans[i as int].0);
            }
        }
        push_range(&mut out, &chars, last, s);
        let mut mid: Vec<char> = Vec::new();
        push_range(&mut mid, &chars, s, e);
        let text = string_of(mid.as_slice());
        let shown = emphasize(text.as_str());
        let shown_chars = chars_of(shown.as_str());
        push_range(&mut out, &shown_chars, 0, shown_chars.len());
        let ghost mark = shown@ != text@;
        proof {
            assert(mid@ =~= span_text(line@, spans, i as int));
            assert(shown_chars@.subrange(0, shown_chars@.len() as int) =~= shown_chars@);
            if clean {
                lemma_sub_no_reset(line@, s as int, e as int);
                let m2 = marks.push(mark);
                assert forall|k: int| 0 <= k <= i implies rendered_prefix(line@, spans, m2, k)
                    == rendered_prefix(line@, spans, marks, k) by {
                    lemma_prefix_marks(line@, spans, marks, m2, k);
                }
                assert(out@ =~= rendered_prefix(line@, spans, m2, i as int + 1));
            }
            marks = marks.push(mark);
        }
        last = e;
        i = i + 1;
    }
    push_range(&mut out, &chars, last, chars.len());
    assert(found@.len() == 0 ==> out@ =~= line@);
    proof {
        if clean {
            assert(out@ =~= highlighted(line@, spans, marks));
        }
    }
    string_of(out.as_slice())
}

proof fn lemma_sub_no_reset(line: Seq<char>, a: int, b: int)
    requires
        0 <= a <= b <= line.len(),
        !contains(line, emphasis_end()),
    ensures
        !contains(line.subrange(a, b), emphasis_end()),
{
    if contains(line.subrange(a, b), emphasis_end()) {
        let i = choose|i: int| occurs_at(line.subrange(a, b), emphasis_end(), i);
        assert(line.subrange(a + i, a + i + 4) =~= line.subrange(a, b).subrange(i, i + 4));
        assert(occurs_at(line, emphasis_end(), a + i));
    }
}

proof fn lemma_prefix_marks(
    line: Seq<char>,
    spans: Seq<(int, int)>,
    m1: Seq<bool>,
    m2: Seq<bool>,
    k: int,
)
    requires
        0 <= k <= m1.len() <= m2.len(),
        forall|j: int| 0 <= j < m1.len() ==> m1[j] == m2[j],
    ensures
        rendered_prefix(line, spans, m2, k) == rendered_prefix(line, spans, m1, k),
    decreases k,
{
    if k > 0 {
        lemma_prefix_marks(line, spans, m1, m2, k - 1);
    }
}

/// Removes every start and reset sequence from `s`.
pub open spec fn strip_markers(s: Seq<char>) -> Seq<char>
    decreases s.len(),
{
    if s.len() == 0 {
        s
    } else if s.len() >= 7 && s.subrange(0, 7) == emphasis_start() {
        strip_markers(s.skip(7))
    } else if s.len() >= 4 && s.subrange(0, 4) == emphasis_end() {
        strip_markers(s.skip(4))
    } else {
        seq![s[0]] + strip_markers(s.skip(1))
    }
}

proof fn lemma_strip_plain(a: Seq<char>, y: Seq<char>)
    requires
        !a.contains(escape_char()),
    ensures
        strip_markers(a + y) == a + strip_markers(y),
    decreases a.len(),
{
    if a.len() == 0 {
        assert(a + y =~= y);
    } else {
        let s = a + y;
        assert(s[0] == a[0]);
        assert(a[0] != escape_char()) by {
            if a[0] == escape_char() {
                assert(a.contains(escape_char()));
            }
        }
        if s.len() >= 7 {
            assert(s.subrange(0, 7)[0] == s[0]);
            assert(emphasis_start()[0] == escape_char());
        }
        if s.len() >= 4 {
            assert(s.subrange(0, 4)[0] == s[0]);
            assert(emphasis_end()[0] == escape_char());
        }
        let rest = a.skip(1);
        assert(!rest.contains(escape_char())) by {
            if rest.contains(escape_char()) {
                let j = choose|j: int| 0 <= j < rest.len() && rest[j] == escape_char();
                assert(a[j + 1] == escape_char());
            }
        }
        assert(s.skip(1) =~= rest + y);
        lemma_strip_plain(rest, y);
        assert(a =~= seq![a[0]] + rest);
        assert(a + strip_markers(y) =~= seq![a[0]] + (rest + strip_markers(y)));
    }
}

proof fn lemma_strip_emphasized(t: Seq<char>, y: Seq<char>)
    requires
        !t.contains(escape_char()),
    ensures
        strip_markers(emphasized(t) + y) == t + strip_markers(y),
{
    let s = emphasized(t) + y;
    assert(s.subrange(0, 7) =~= emphasis_start());
    assert(s.skip(7) =~= t + (emphasis_end() + y));
    lemma_strip_plain(t, emphasis_end() + y);
    let e = emphasis_end() + y;
    assert(e.subrange(0, 4) =~= emphasis_end());
    if e.len() >= 7 {
        assert(e.subrange(0, 7)[2] == '0');
        assert(emphasis_start()[2] == '1');
    }
    assert(e.skip(4) =~= y);
}

proof fn lemma_sub_clean(line: Seq<char>, a: int, b: int)
    requires
        0 <= a <= b <= line.len(),
        !line.contains(escape_char()),
    ensures
        !line.subrange(a, b).contains(escape_char()),
{
    if line.subrange(a, b).contains(escape_char()) {
        let j = choose|j: int| 0 <= j < b - a && line.subrange(a, b)[j] == escape_char();
        assert(line[a + j] == escape_char());
    }
}

proof fn lemma_strip_prefix(
    line: Seq<char>,
    spans: Seq<(int, int)>,
    marks: Seq<bool>,
    k: int,
    y: Seq<char>,
)
    requires
        !line.contains(escape_char()),
        spans_ordered(spans, line.len() as int),
        marks.len() == spans.len(),
        0 <= k <= spans.len(),
    ensures
        strip_markers(rendered_prefix(line, spans, marks, k) + y) == line.subrange(
            0,
            prev_end(spans, k),
        ) + strip_markers(y),
    decreases k,
{
    if k == 0 {
        assert(rendered_prefix(line, spans, marks, 0) + y =~= y);
        assert(line.subrange(0, 0) + strip_markers(y) =~= strip_markers(y));
    } else {
        let i = k - 1;
        let gap = line.subrange(prev_end(spans, i), spans[i].0);
        let mid = span_text(line, spans, i);
        assert(0 <= prev_end(spans, i) <= spans[i].0) by {
            if i > 0 {
                assert(spans[i - 1].1 <= spans[i].0);
                assert(0 <= spans[i - 1].0 <= spans[i - 1].1);
            }
        }
        lemma_sub_clean(line, prev_end(spans, i), spans[i].0);
        lemma_sub_clean(line, spans[i].0, spans[i].1);
        let em = if marks[i] {
            emphasized(mid)
        } else {
            mid
        };
        let tail = gap + (em + y);
        assert(rendered_prefix(line, spans, marks, k) + y =~= rendered_prefix(
            line,
            spans,
            marks,
            i,
        ) + tail);
        lemma_strip_prefix(line, spans, marks, i, tail);
        lemma_strip_plain(gap, em + y);
        if marks[i] {
            lemma_strip_emphasized(mid, y);
        } else {
            lemma_strip_plain(mid, y);
        }
        assert(line.subrange(0, prev_end(spans, i)) + (gap + (mid + strip_markers(y)))
            =~= line.subrange(0, prev_end(spans, k)) + strip_markers(y));
    }
}

/// Removing the emphasis sequences from a highlighted line gives the line back,
/// for every choice of emphasised spans, where the line itself holds no escape
/// character.
pub proof fn lemma_highlight_round_trip(line: Seq<char>, spans: Seq<(int, int)>, marks: Seq<bool>)
    requires
        !line.contains(escape_char()),
        spans_ordered(spans, line.len() as int),
        marks.len() == spans.len(),
    ensures
        strip_markers(highlighted(line, spans, marks)) == line,
{
    let n = spans.len() as int;
    let rest = line.subrange(prev_end(spans, n), line.len() as int);
    assert(0 <= prev_end(spans, n) <= line.len()) by {
        if n > 0 {
            assert(0 <= spans[n - 1].0 <= spans[n - 1].1);
        }
    }
    lemma_strip_prefix(line, spans, marks, n, rest);
    lemma_sub_clean(line, prev_end(spans, n), line.len() as int);
    lemma_strip_plain(rest, seq![]);
    assert(rest + seq![] =~= rest);
    assert(strip_markers(Seq::<char>::empty()) == Seq::<char>::empty());
    assert(line.subrange(0, prev_end(spans, n)) + (rest + Seq::<char>::empty()) =~= line);
}

} // verus!
