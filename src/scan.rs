use vstd::prelude::*;
use crate::config::{OutputMode, SearchSpec};
use crate::highlight::{highlight, highlighted, is_match, selected};
use crate::matcher::{emphasis_end, regex_spans, Matcher};
use crate::text::{chars_of, contains, decimal, push_decimal, push_range, string_of};

verus! {

/// The pieces of `s` between line endings, one more than the number of
/// endings: `\n`, `\r\n` and a lone `\r` each end a line.
pub open spec fn split_line_endings(s: Seq<char>) -> Seq<Seq<char>>
    decreases s.len(),
{
    if s.len() == 0 {
        seq![seq![]]
    } else {
        let rest = split_line_endings(s.drop_last());
        let c = s.last();
        if c == '\n' {
            if s.len() >= 2 && s[s.len() - 2] == '\r' {
                rest
            } else {
                rest.push(seq![])
            }
        } else if c == '\r' {
            rest.push(seq![])
        } else {
            rest.update(rest.len() - 1, rest.last().push(c))
        }
    }
}

/// The lines of a text under universal newlines, with no empty line made up
/// after a final line ending.
pub open spec fn lines_of(s: Seq<char>) -> Seq<Seq<char>> {
    let p = split_line_endings(s);
    let n = p.len() - 1;
    p.take(n) + if p[n].len() > 0 {
        seq![p[n]]
    } else {
        seq![]
    }
}

/// Splits a file's contents into lines.
pub fn split_lines(contents: &str) -> (r: Vec<String>)
    ensures
        r@.len() == lines_of(contents@).len(),
        forall|k: int| 0 <= k < r@.len() ==> #[trigger] r@[k]@ == lines_of(contents@)[k],
{
    let chars = chars_of(contents);
    let mut out: Vec<String> = Vec::new();
    let mut cur: Vec<char> = Vec::new();
    let ghost mut done: Seq<Seq<char>> = seq![];
    let mut after_cr = false;
    let mut j: usize = 0;
    assert(chars@.subrange(0, 0) =~= Seq::<char>::empty());
    while j < chars.len()
        invariant
            chars@ == contents@,
            j <= chars.len(),
            after_cr == (j > 0 && chars@[j - 1] == '\r'),
            split_line_endings(chars@.subrange(0, j as int)) == done.push(cur@),
            out@.len() == done.len(),
            forall|k: int| 0 <= k < out@.len() ==> #[trigger] out@[k]@ == done[k],
        decreases chars.len() - j,
    {
        let c = chars[j];
        let ghost pre = chars@.subrange(0, j as int);
        let ghost now = chars@.subrange(0, j + 1);
        assert(now.drop_last() =~= pre);
        assert(now.last() == c);
        assert(j >= 1 ==> now[now.len() - 2] == chars@[j - 1]);
        if c == '\n' && after_cr {
            assert(split_line_endings(now) =~= done.push(cur@));
        } else if c == '\n' || c == '\r' {
            let line = string_of(cur.as_slice());
            out.push(line);
            proof {
                done = done.push(cur@);
            }
            cur = Vec::new();
            assert(split_line_endings(now) =~= done.push(cur@));
        } else {
            cur.push(c);
            assert(split_line_endings(now) =~= done.push(cur@));
        }
        after_cr = c == '\r';
        j = j + 1;
    }
    assert(chars@.subrange(0, j as int) =~= chars@);
    let ghost p = split_line_endings(contents@);
    if cur.len() > 0 {
        let s = string_of(cur.as_slice());
        out.push(s);
    }
    assert(p.len() - 1 == done.len());
    assert(p[done.len() as int] == cur@);
    assert forall|k: int| 0 <= k < out@.len() implies #[trigger] out@[k]@ == lines_of(contents@)[k] by {
        if k < done.len() {
            assert(p[k] == done[k]);
        }
    }
    out
}

/// What stands before a printed line: the file name where several files are
/// searched, then the 1-based line number where asked, each followed by `:`.
pub open spec fn prefix_of(file: Seq<char>, index: nat, show_line_number: bool, show_filename: bool) -> Seq<char> {
    let num = if show_line_number {
        decimal(index + 1) + seq![':']
    } else {
        seq![]
    };
    if show_filename {
        file + seq![':'] + num
    } else {
        num
    }
}

fn push_str_chars(out: &mut Vec<char>, s: &str)
    ensures
        final(out)@ == old(out)@ + s@,
{
    let v = chars_of(s);
    push_range(out, &v, 0, v.len());
    assert(v@.subrange(0, v@.len() as int) =~= v@);
}

fn render_prefix(file: &str, index: usize, show_line_number: bool, show_filename: bool) -> (r: Vec<char>)
    requires
        index < usize::MAX,
    ensures
        r@ == prefix_of(file@, index as nat, show_line_number, show_filename),
{
    let mut out: Vec<char> = Vec::new();
    if show_filename {
        push_str_chars(&mut out, file);
        out.push(':');
    }
    if show_line_number {
        push_decimal(&mut out, index + 1);
        out.push(':');
    }
    assert(out@ =~= prefix_of(file@, index as nat, show_line_number, show_filename));
    out
}

/// Renders one selected line: its prefix, then the line, highlighted when
/// `use_color` is set.
pub fn print_match(
    file: &str,
    index: usize,
    line: &str,
    matcher: &Matcher,
    show_line_number: bool,
    show_filename: bool,
    use_color: bool,
) -> (r: String)
    requires
        index < usize::MAX,
        matcher.wf(),
    ensures
        !use_color || !matcher.finds(line@) ==> r@ == prefix_of(
            file@,
            index as nat,
            show_line_number,
            show_filename,
        ) + line@,
        use_color && !contains(line@, emphasis_end()) ==> exists|marks: Seq<bool>|
            marks.len() == regex_spans(matcher.source(), line@).len() && r@ == prefix_of(
                file@,
                index as nat,
                show_line_number,
                show_filename,
            ) + highlighted(line@, regex_spans(matcher.source(), line@), marks),
{
    let mut out = render_prefix(file, index, show_line_number, show_filename);
    if use_color {
        let shown = highlight(line, matcher);
        push_str_chars(&mut out, shown.as_str());
    } else {
        push_str_chars(&mut out, line);
    }
    string_of(out.as_slice())
}

/// The prefix and text of each line printed in normal mode, for the first
/// `k` lines.
pub open spec fn normal_output(
    file: Seq<char>,
    lines: Seq<Seq<char>>,
    m: &Matcher,
    invert: bool,
    show_line_number: bool,
    show_filename: bool,
    k: int,
) -> Seq<(Seq<char>, Seq<char>)>
    decreases k,
{
    if k <= 0 {
        seq![]
    } else {
        let before = normal_output(file, lines, m, invert, show_line_number, show_filename, k - 1);
        if selected(m, lines[k - 1], invert) {
            before.push((prefix_of(file, (k - 1) as nat, show_line_number, show_filename), lines[k - 1]))
        } else {
            before
        }
    }
}

/// How many of the first `k` lines are selected.
pub open spec fn count_selected(lines: Seq<Seq<char>>, m: &Matcher, invert: bool, k: int) -> nat
    decreases k,
{
    if k <= 0 {
        0
    } else {
        count_selected(lines, m, invert, k - 1) + if selected(m, lines[k - 1], invert) {
            1nat
        } else {
            0nat
        }
    }
}

/// Some line is selected.
pub open spec fn any_selected(lines: Seq<Seq<char>>, m: &Matcher, invert: bool) -> bool {
    exists|k: int| 0 <= k < lines.len() && selected(m, #[trigger] lines[k], invert)
}

/// The one line printed in count mode.
pub open spec fn count_line(file: Seq<char>, count: nat, show_filename: bool) -> Seq<char> {
    if show_filename {
        file + seq![':'] + decimal(count)
    } else {
        decimal(count)
    }
}

/// File names are shown exactly when more than one file is searched.
pub fn show_filenames(file_count: usize) -> (r: bool)
    ensures
        r == (file_count > 1),
{
    file_count > 1
}

/// With file names shown, the prefix of every line printed in normal mode
/// starts with the file's name and a colon; without, the file's name does
/// not matter to the output at all.
pub proof fn lemma_filename_prefix(
    file: Seq<char>,
    other: Seq<char>,
    lines: Seq<Seq<char>>,
    m: &Matcher,
    invert: bool,
    show_line_number: bool,
    k: int,
)
    requires
        0 <= k <= lines.len(),
    ensures
        forall|j: int|
            0 <= j < normal_output(file, lines, m, invert, show_line_number, true, k).len() ==> (
            #[trigger] normal_output(file, lines, m, invert, show_line_number, true, k)[j]).0.subrange(
                0,
                file.len() + 1int,
            ) == file + seq![':'],
        normal_output(file, lines, m, invert, show_line_number, false, k) == normal_output(
            other,
            lines,
            m,
            invert,
            show_line_number,
            false,
            k,
        ),
    decreases k,
{
    if k > 0 {
        lemma_filename_prefix(file, other, lines, m, invert, show_line_number, k - 1);
        let before = normal_output(file, lines, m, invert, show_line_number, true, k - 1);
        let now = normal_output(file, lines, m, invert, show_line_number, true, k);
        if selected(m, lines[k - 1], invert) {
            let added = prefix_of(file, (k - 1) as nat, show_line_number, true);
            assert(added.subrange(0, file.len() + 1int) =~= file + seq![':']);
            assert forall|j: int| 0 <= j < now.len() implies (#[trigger] now[j]).0.subrange(
                0,
                file.len() + 1int,
            ) == file + seq![':'] by {
                if j < before.len() {
                    assert(now[j] == before[j]);
                }
            }
        }
    }
}

/// How a printed line shows its prefix and text: as they are, or, with
/// highlighting, the text with each match emphasised or not (a text holding
/// a reset sequence aside).
pub open spec fn shown_as(
    printed: Seq<char>,
    entry: (Seq<char>, Seq<char>),
    m: &Matcher,
    highlighting: bool,
) -> bool {
    if !highlighting {
        printed == entry.0 + entry.1
    } else {
        !contains(entry.1, emphasis_end()) ==> exists|marks: Seq<bool>|
            marks.len() == regex_spans(m.source(), entry.1).len() && printed == entry.0
                + highlighted(entry.1, regex_spans(m.source(), entry.1), marks)
    }
}

/// Scans one file's contents and returns the lines to print, in order:
/// the name of the file once if any line is selected (filenames-only mode,
/// which stops at the first selected line), the number of selected lines
/// (count mode), or each selected line with its prefix (normal mode,
/// highlighted when `use_color` is set and the selection is not inverted).
pub fn process_file(
    file: &str,
    contents: &str,
    spec: &SearchSpec,
    matcher: &Matcher,
    show_filename: bool,
    use_color: bool,
) -> (r: Vec<String>)
    requires
        matcher.wf(),
    ensures
        ({
            let lines = lines_of(contents@);
            let inv = spec.invert;
            &&& spec.output_mode == OutputMode::FilenamesOnly ==> if any_selected(lines, matcher, inv) {
                r@.len() == 1 && r@[0]@ == file@
            } else {
                r@.len() == 0
            }
            &&& spec.output_mode == OutputMode::Count ==> r@.len() == 1 && r@[0]@ == count_line(
                file@,
                count_selected(lines, matcher, inv, lines.len() as int),
                show_filename,
            )
            &&& spec.output_mode == OutputMode::Normal ==> {
                let expected = normal_output(
                    file@,
                    lines,
                    matcher,
                    inv,
                    spec.show_line_numbers,
                    show_filename,
                    lines.len() as int,
                );
                &&& r@.len() == expected.len()
                &&& forall|k: int|
                    0 <= k < r@.len() ==> shown_as(
                        #[trigger] r@[k]@,
                        expected[k],
                        matcher,
                        use_color && !inv,
                    )
            }
        }),
{
    let lines = split_lines(contents);
    let ghost ls = lines_of(contents@);
    let ghost inv = spec.invert;
    let mut out: Vec<String> = Vec::new();
    let mut count: usize = 0;
    let mut index: usize = 0;
    while index < lines.len()
        invariant
            matcher.wf(),
            lines@.len() == ls.len(),
            forall|k: int| 0 <= k < lines@.len() ==> #[trigger] lines@[k]@ == ls[k],
            index <= lines.len(),
            inv == spec.invert,
            ls == lines_of(contents@),
            spec.output_mode == OutputMode::Count ==> count as nat == count_selected(ls, matcher, inv, index as int),
            count <= index,
            spec.output_mode == OutputMode::FilenamesOnly ==> out@.len() == 0 && forall|k: int|
                0 <= k < index ==> !selected(matcher, #[trigger] ls[k], inv),
            spec.output_mode == OutputMode::Count ==> out@.len() == 0,
            spec.output_mode == OutputMode::Normal ==> {
                let expected = normal_output(
                    file@,
                    ls,
                    matcher,
                    inv,
                    spec.show_line_numbers,
                    show_filename,
                    index as int,
                );
                &&& out@.len() == expected.len()
                &&& forall|k: int|
                    0 <= k < out@.len() ==> shown_as(
                        #[trigger] out@[k]@,
                        expected[k],
                        matcher,
                        use_color && !inv,
                    )
            },
        decreases lines.len() - index,
    {
        let line = &lines[index];
        assert(line@ == ls[index as int]);
        if is_match(line.as_str(), matcher, spec.invert) {
            match spec.output_mode {
                OutputMode::FilenamesOnly => {
                    let mut only: Vec<String> = Vec::new();
                    let name = string_of(chars_of(file).as_slice());
                    only.push(name);
                    assert(selected(matcher, ls[index as int], inv));
                    assert(0 <= index < ls.len());
                    assert(any_selected(ls, matcher, inv));

                    return only;
                },
                OutputMode::Count => {
                    count = count + 1;
                },
                OutputMode::Normal => {
                    let shown = print_match(
                        file,
                        index,
                        line.as_str(),
                        matcher,
                        spec.show_line_numbers,
                        show_filename,
                        use_color && !spec.invert,
                    );
                    out.push(shown);
                },
            }
        }
        index = index + 1;
    }
    if spec.output_mode == OutputMode::Count {
        let mut v: Vec<char> = Vec::new();
        if show_filename {
            push_str_chars(&mut v, file);
            v.push(':');
        }
        push_decimal(&mut v, count);
        let s = string_of(v.as_slice());
        out.push(s);
        assert(v@ =~= count_line(file@, count as nat, show_filename));
    }
    proof {
        if spec.output_mode == OutputMode::FilenamesOnly {
            assert(!any_selected(ls, matcher, inv));
        }
    }
    out
}

} // verus!
