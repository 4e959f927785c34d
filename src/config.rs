use vstd::prelude::*;

verus! {

/// Which of the three rendering paths a run takes.
#[derive(Clone, Copy, Debug, PartialEq, Eq, Structural)]
pub enum OutputMode {
    Normal,
    Count,
    FilenamesOnly,
}

/// When matched spans are emphasised.
#[derive(Clone, Copy, Debug, PartialEq, Eq, Structural)]
pub enum ColorMode {
    Auto,
    Always,
    Never,
}

/// A rejected combination of options.
#[derive(Clone, Copy, Debug, PartialEq, Eq, Structural)]
pub enum ConfigError {
    /// More than one of count, filenames-only and line numbers was asked for.
    ConflictingModes,
    /// The color option is none of `auto`, `always`, `never`.
    UnknownColor,
}

/// The immutable description of one search run.
#[derive(Debug)]
pub struct SearchSpec {
    pub pattern: String,
    pub case_insensitive: bool,
    pub whole_words: bool,
    pub invert: bool,
    pub output_mode: OutputMode,
    pub show_line_numbers: bool,
    pub color_mode: ColorMode,
}

pub open spec fn color_word(mode: ColorMode) -> Seq<char> {
    match mode {
        ColorMode::Auto => seq!['a', 'u', 't', 'o'],
        ColorMode::Always => seq!['a', 'l', 'w', 'a', 'y', 's'],
        ColorMode::Never => seq!['n', 'e', 'v', 'e', 'r'],
    }
}

/// At most one of count, filenames-only and line numbers may be requested.
pub open spec fn modes_conflict(count: bool, files_with_matches: bool, show_line_numbers: bool) -> bool {
    (count && files_with_matches) || (count && show_line_numbers) || (files_with_matches
        && show_line_numbers)
}

pub open spec fn mode_of(count: bool, files_with_matches: bool) -> OutputMode {
    if count {
        OutputMode::Count
    } else if files_with_matches {
        OutputMode::FilenamesOnly
    } else {
        OutputMode::Normal
    }
}

fn same_chars(a: &str, b: &str) -> (r: bool)
    ensures
        r == (a@ == b@),
{
    let a = a.to_owned();
    let b = b.to_owned();
    a == b
}

/// Parses the value of the color option.
pub fn parse_color(word: &str) -> (r: Option<ColorMode>)
    ensures
        r matches Some(m) ==> color_word(m) == word@,
        r is None <==> (forall|m: ColorMode| color_word(m) != word@),
{
    proof {
        reveal_strlit("auto");
        reveal_strlit("always");
        reveal_strlit("never");
    }
    if same_chars(word, "auto") {
        assert(color_word(ColorMode::Auto) == word@);
        Some(ColorMode::Auto)
    } else if same_chars(word, "always") {
        assert(color_word(ColorMode::Always) == word@);
        Some(ColorMode::Always)
    } else if same_chars(word, "never") {
        assert(color_word(ColorMode::Never) == word@);
        Some(ColorMode::Never)
    } else {
        assert forall|m: ColorMode| color_word(m) != word@ by {
            match m {
                ColorMode::Auto => assert(color_word(m) == "auto"@),
                ColorMode::Always => assert(color_word(m) == "always"@),
                ColorMode::Never => assert(color_word(m) == "never"@),
            }
        }
        None
    }
}

impl SearchSpec {
    /// Validates the requested options and builds the run's description.
    pub fn new(
        pattern: String,
        case_insensitive: bool,
        whole_words: bool,
        invert: bool,
        count: bool,
        files_with_matches: bool,
        show_line_numbers: bool,
        color: &str,
    ) -> (r: Result<SearchSpec, ConfigError>)
        ensures
            r == Err::<SearchSpec, ConfigError>(ConfigError::ConflictingModes) <==> modes_conflict(
                count,
                files_with_matches,
                show_line_numbers,
            ),
            r == Err::<SearchSpec, ConfigError>(ConfigError::UnknownColor) <==> (!modes_conflict(
                count,
                files_with_matches,
                show_line_numbers,
            ) && forall|m: ColorMode| color_word(m) != color@),
            r matches Ok(s) ==> s.pattern@ == pattern@ && s.case_insensitive == case_insensitive
                && s.whole_words == whole_words && s.invert == invert && s.output_mode == mode_of(
                count,
                files_with_matches,
            ) && s.show_line_numbers == show_line_numbers && color_word(s.color_mode) == color@,
    {
        if (count && files_with_matches) || (count && show_line_numbers) || (files_with_matches
            && show_line_numbers) {
            return Err(ConfigError::ConflictingModes);
        }
        let color_mode = match parse_color(color) {
            Some(m) => m,
            None => {
                return Err(ConfigError::UnknownColor);
            },
        };
        let output_mode = if count {
            OutputMode::Count
        } else if files_with_matches {
            OutputMode::FilenamesOnly
        } else {
            OutputMode::Normal
        };
        Ok(
            SearchSpec {
                pattern,
                case_insensitive,
                whole_words,
                invert,
                output_mode,
                show_line_numbers,
                color_mode,
            },
        )
    }
}

/// The color decision, made once per run; whether standard output is a
/// terminal is supplied by the caller.
pub fn should_use_color(mode: ColorMode, stdout_is_terminal: bool) -> (r: bool)
    ensures
        r == match mode {
            ColorMode::Always => true,
            ColorMode::Never => false,
            ColorMode::Auto => stdout_is_terminal,
        },
{
    match mode {
        ColorMode::Always => true,
        ColorMode::Never => false,
        ColorMode::Auto => stdout_is_terminal,
    }
}

} // verus!
