use rgrep::{
    get_regex, highlight, is_match, parse_color, print_match, process_file, should_use_color,
    show_filenames, split_lines, ColorMode, CompileError, ConfigError, Matcher, OutputMode,
    SearchSpec,
};

const SAMPLE: &str = "foo bar\nbaz\nfoobar\n";

fn spec(pattern: &str, flags: &str) -> SearchSpec {
    SearchSpec::new(
        pattern.to_string(),
        flags.contains('i'),
        flags.contains('w'),
        flags.contains('v'),
        flags.contains('c'),
        flags.contains('l'),
        flags.contains('n'),
        "never",
    )
    .unwrap()
}

fn matcher_for(s: &SearchSpec) -> Matcher {
    match get_regex(s) {
        Ok(m) => m,
        Err(CompileError::Invalid(message)) => panic!("pattern did not compile: {message}"),
    }
}

fn run(pattern: &str, flags: &str, file: &str, contents: &str, show_filename: bool) -> Vec<String> {
    let s = spec(pattern, flags);
    let m = matcher_for(&s);
    process_file(file, contents, &s, &m, show_filename, false)
}

fn strip(s: &str) -> String {
    s.replace("\x1b[1;31m", "").replace("\x1b[0m", "")
}

fn matches(line: &str, pattern: &str, flags: &str) -> bool {
    let s = spec(pattern, flags);
    let m = matcher_for(&s);
    is_match(line, &m, s.invert)
}

#[test]
fn plain_search_prints_matching_lines() {
    assert_eq!(run("foo", "", "a.txt", SAMPLE, false), vec!["foo bar", "foobar"]);
}

#[test]
fn line_numbers_with_invert() {
    assert_eq!(run("foo", "nv", "a.txt", SAMPLE, false), vec!["2:baz"]);
}

#[test]
fn count_mode_counts_lines() {
    assert_eq!(run("foo", "c", "a.txt", SAMPLE, false), vec!["2"]);
}

#[test]
fn count_mode_counts_lines_not_occurrences() {
    assert_eq!(run("o", "c", "a.txt", "foo\nxyz\nooo\n", false), vec!["2"]);
}

#[test]
fn count_mode_with_several_files() {
    assert_eq!(run("foo", "c", "a.txt", SAMPLE, true), vec!["a.txt:2"]);
    assert_eq!(run("zzz", "c", "b.txt", SAMPLE, true), vec!["b.txt:0"]);
}

#[test]
fn filenames_only_lists_each_file_once() {
    let show = show_filenames(2);
    assert!(show);
    let mut out = run("foo", "l", "one.txt", "x foo\n", show);
    out.extend(run("foo", "l", "two.txt", "foo y\n", show));
    assert_eq!(out, vec!["one.txt", "two.txt"]);
}

#[test]
fn filenames_only_stops_after_first_match() {
    assert_eq!(run("foo", "l", "a.txt", "foo\nfoo\nfoo\n", false), vec!["a.txt"]);
    assert!(run("foo", "l", "a.txt", "bar\nbaz\n", false).is_empty());
}

#[test]
fn several_files_prefix_file_names() {
    assert!(!show_filenames(1));
    assert_eq!(run("foo", "", "a.txt", SAMPLE, true), vec!["a.txt:foo bar", "a.txt:foobar"]);
    assert_eq!(run("foo", "n", "a.txt", SAMPLE, true), vec!["a.txt:1:foo bar", "a.txt:3:foobar"]);
    assert_eq!(run("foo", "n", "a.txt", SAMPLE, false), vec!["1:foo bar", "3:foobar"]);
}

#[test]
fn whole_words() {
    assert!(matches("the cat sat", "cat", "w"));
    assert!(!matches("concatenate", "cat", "w"));
    assert!(matches("concatenate", "cat", ""));
    assert!(matches("cat", "cat", "w"));
    assert!(!matches("cats", "cat", "w"));
    assert!(matches("a cat_", "cat", "") && !matches("a cat_", "cat", "w"));
}

#[test]
fn ignore_case_equals_lowercasing() {
    for (line, pattern) in [("Hello World", "WORLD"), ("abc", "ABD"), ("MiXeD", "xed")] {
        assert_eq!(
            matches(line, pattern, "i"),
            matches(&line.to_lowercase(), &pattern.to_lowercase(), "")
        );
    }
    assert!(matches("Hello World", "WORLD", "i"));
    assert!(!matches("Hello World", "WORLD", ""));
    assert!(matches("The Cat", "cat", "iw"));
}

#[test]
fn invert_negates() {
    for line in ["foo bar", "baz", "", "FOO"] {
        assert_eq!(matches(line, "foo", "v"), !matches(line, "foo", ""));
    }
    assert!(matches("", "foo", "v"));
    assert!(!matches("", "foo", ""));
}

#[test]
fn substring_search_is_literal() {
    assert!(matches("a.b", "a.b", ""));
    assert!(!matches("axb", "a.b", ""));
    assert!(matches("cost is $5 (net)", "$5 (net)", ""));
    assert!(!matches("aaa", "a+", ""));
    assert!(matches("x", "", ""));
}

#[test]
fn highlight_round_trip() {
    let s = spec("o", "");
    let m = matcher_for(&s);
    for line in ["foo boo", "none", "", "oooo"] {
        assert_eq!(strip(&highlight(line, &m)), line);
    }
}

#[test]
fn highlight_wraps_each_match() {
    colored::control::set_override(true);
    let s = spec("ab", "");
    let m = matcher_for(&s);
    assert_eq!(highlight("xabyabab", &m), "x\x1b[1;31mab\x1b[0my\x1b[1;31mab\x1b[0m\x1b[1;31mab\x1b[0m");
    assert_eq!(highlight("nothing", &m), "nothing");
    let shown = print_match("f", 0, "an ab", &m, true, true, true);
    assert_eq!(shown, "f:1:an \x1b[1;31mab\x1b[0m");
    colored::control::unset_override();
}

#[test]
fn print_match_prefixes() {
    let s = spec("x", "");
    let m = matcher_for(&s);
    assert_eq!(print_match("f.txt", 11, "x y", &m, true, true, false), "f.txt:12:x y");
    assert_eq!(print_match("f.txt", 0, "x y", &m, false, true, false), "f.txt:x y");
    assert_eq!(print_match("f.txt", 99, "x y", &m, true, false, false), "100:x y");
    assert_eq!(print_match("f.txt", 4, "x y", &m, false, false, false), "x y");
}

#[test]
fn lines_are_split_universally() {
    assert_eq!(split_lines("a\r\nb\n"), vec!["a", "b"]);
    assert_eq!(split_lines("a\n\nb"), vec!["a", "", "b"]);
    assert!(split_lines("").is_empty());
    assert_eq!(split_lines("\n"), vec![""]);
    assert_eq!(split_lines("x\r"), vec!["x"]);
    assert_eq!(split_lines("a\rb"), vec!["a", "b"]);
    assert_eq!(split_lines("a\r\rb"), vec!["a", "", "b"]);
    assert_eq!(split_lines("a\n\r\nb\r\n"), vec!["a", "", "b"]);
    assert_eq!(split_lines("é\nü"), vec!["é", "ü"]);
}

#[test]
fn conflicting_modes_are_rejected() {
    let r = SearchSpec::new("p".to_string(), false, false, false, true, true, false, "auto");
    assert!(matches!(r, Err(ConfigError::ConflictingModes)));
    let r = SearchSpec::new("p".to_string(), false, false, false, true, false, true, "auto");
    assert!(matches!(r, Err(ConfigError::ConflictingModes)));
    let r = SearchSpec::new("p".to_string(), false, false, false, false, true, true, "auto");
    assert!(matches!(r, Err(ConfigError::ConflictingModes)));
}

#[test]
fn unknown_color_is_rejected() {
    let r = SearchSpec::new("p".to_string(), false, false, false, false, false, false, "sometimes");
    assert!(matches!(r, Err(ConfigError::UnknownColor)));
    assert_eq!(parse_color("always"), Some(ColorMode::Always));
    assert_eq!(parse_color("never"), Some(ColorMode::Never));
    assert_eq!(parse_color("auto"), Some(ColorMode::Auto));
    assert_eq!(parse_color("Auto"), None);
}

#[test]
fn spec_records_options() {
    let s = SearchSpec::new("p".to_string(), true, true, true, false, true, false, "always").unwrap();
    assert_eq!(s.output_mode, OutputMode::FilenamesOnly);
    assert_eq!(s.color_mode, ColorMode::Always);
    assert!(s.case_insensitive && s.whole_words && s.invert && !s.show_line_numbers);
    assert_eq!(spec("p", "c").output_mode, OutputMode::Count);
    assert_eq!(spec("p", "").output_mode, OutputMode::Normal);
}

#[test]
fn color_decision() {
    assert!(should_use_color(ColorMode::Always, false));
    assert!(!should_use_color(ColorMode::Never, true));
    assert!(should_use_color(ColorMode::Auto, true));
    assert!(!should_use_color(ColorMode::Auto, false));
}

#[test]
fn lone_carriage_return_ends_a_line() {
    assert_eq!(run("b", "", "f", "a\rb", false), vec!["b"]);
    assert_eq!(run("b", "n", "f", "a\rb\r\nb", false), vec!["2:b", "3:b"]);
}

#[test]
fn metacharacters_compile_as_literals() {
    let s = spec("a.c", "");
    let m = matcher_for(&s);
    assert!(!is_match("abc", &m, false));
    assert!(is_match("xa.cx", &m, false));
    let s = spec("cat", "w");
    let m = matcher_for(&s);
    assert!(is_match("cat-x", &m, false));
    assert!(!is_match("cat_x", &m, false));
    assert!(!is_match("bobcat", &m, false));
    assert!(is_match("(cat)", &m, false));
}

#[test]
fn word_characters_are_ascii() {
    assert!(matches("écat", "cat", "w"));
    assert!(matches("caté", "cat", "w"));
    assert!(!matches("cat9", "cat", "w"));
}

#[test]
fn inverted_lines_are_not_highlighted() {
    colored::control::set_override(true);
    let s = spec("foo", "nv");
    let m = matcher_for(&s);
    assert_eq!(process_file("f", SAMPLE, &s, &m, false, true), vec!["2:baz"]);
    let s = spec("foo", "");
    let m = matcher_for(&s);
    assert_eq!(
        process_file("f", SAMPLE, &s, &m, true, true),
        vec!["f:\x1b[1;31mfoo\x1b[0m bar", "f:\x1b[1;31mfoo\x1b[0mbar"]
    );
    colored::control::unset_override();
}

#[test]
fn highlight_without_match_keeps_line() {
    colored::control::set_override(true);
    let s = spec("zz", "");
    let m = matcher_for(&s);
    assert_eq!(highlight("a line", &m), "a line");
    colored::control::unset_override();
}

#[test]
fn empty_line_never_matches_nonempty_pattern() {
    for flags in ["", "i", "w", "iw"] {
        assert!(!matches("", "ü", flags));
        assert!(matches("", "ü", &format!("{flags}v")));
    }
}
