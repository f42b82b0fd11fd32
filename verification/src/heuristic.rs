//! Heuristic detection of y/N-style confirmation prompts in free-form messages.

use vstd::prelude::*;

pub use crate::input_spec::YesNoFormat;

verus! {

#[verifier::external_type_specification]
#[verifier::external_body]
pub struct ExRegex(regex::Regex);

#[verifier::external_type_specification]
#[verifier::external_body]
pub struct ExRegexError(regex::Error);

/// Whether `regex::Regex::new` accepts `pattern`: it refuses a pattern with a syntax
/// error or one that compiles past the crate's size limit. A function of the pattern alone.
pub uninterp spec fn regex_compiles(pattern: Seq<char>) -> bool;

/// What `regex::Regex::is_match` answers for a regex compiled from `pattern`, searched
/// anywhere in `haystack`. A function of the pattern and the haystack alone.
pub uninterp spec fn regex_finds(pattern: Seq<char>, haystack: Seq<char>) -> bool;

/// Calls `regex::Regex::new`, which returns `Ok` exactly when the pattern compiles.
#[verifier::external_body]
fn regex_new(pattern: &str) -> (r: Result<regex::Regex, regex::Error>)
    ensures
        r is Ok <==> regex_compiles(pattern@),
{
    regex::Regex::new(pattern)
}

/// A compiled regular expression together with the pattern text it was compiled from.
/// The fields are private and only `Pattern::compile` builds one, so `re` is always the
/// compilation of `source`.
pub struct Pattern {
    source: String,
    re: regex::Regex,
}

impl Pattern {
    /// The pattern text.
    pub closed spec fn source(&self) -> Seq<char> {
        self.source@
    }

    /// Compiles `source`; `None` when the regex crate refuses it.
    pub fn compile(source: &str) -> (r: Option<Pattern>)
        ensures
            r is Some <==> regex_compiles(source@),
            r matches Some(p) ==> p.source() == source@,
    {
        match regex_new(source) {
            Ok(re) => Some(Pattern { source: source.to_owned(), re }),
            Err(_) => None,
        }
    }
}

/// Calls `regex::Regex::is_match` on the compiled regex of `p`.
#[verifier::external_body]
fn pattern_is_match(p: &Pattern, haystack: &str) -> (r: bool)
    ensures
        r == regex_finds(p.source(), haystack@),
{
    p.re.is_match(haystack)
}

/// A bracketed or parenthesized "yes/no", any case, blanks allowed around the words.
pub open spec fn yes_no_pattern() -> Seq<char> {
    "(?i)[\\[\\(]\\s*yes\\s*/\\s*no\\s*[\\]\\)]"@
}

/// A bracketed or parenthesized "y/n", any case, blanks allowed around the letters.
pub open spec fn y_n_pattern() -> Seq<char> {
    "(?i)[\\[\\(]\\s*y\\s*/\\s*n\\s*[\\]\\)]"@
}

/// A pattern that compiles and matches somewhere in `msg`.
pub open spec fn found(pattern: Seq<char>, msg: Seq<char>) -> bool {
    regex_compiles(pattern) && regex_finds(pattern, msg)
}

/// The prompt format that `msg` asks for: the long form wins over the short form.
pub open spec fn yn_prompt_of(msg: Seq<char>) -> Option<YesNoFormat> {
    if found(yes_no_pattern(), msg) {
        Some(YesNoFormat::YesNo)
    } else if found(y_n_pattern(), msg) {
        Some(YesNoFormat::YN)
    } else {
        None
    }
}

fn finds(pattern: &str, msg: &str) -> (r: bool)
    ensures
        r == found(pattern@, msg@),
{
    match Pattern::compile(pattern) {
        Some(p) => pattern_is_match(&p, msg),
        None => false,
    }
}

/// The prompt format given which of the two patterns matched: the long form wins.
pub fn prompt_format(long_form_found: bool, short_form_found: bool) -> (r: Option<YesNoFormat>)
    ensures
        r == if long_form_found {
            Some(YesNoFormat::YesNo)
        } else if short_form_found {
            Some(YesNoFormat::YN)
        } else {
            None
        },
{
    if long_form_found {
        Some(YesNoFormat::YesNo)
    } else if short_form_found {
        Some(YesNoFormat::YN)
    } else {
        None
    }
}

/// Detect y/N-style prompts. Returns the format if one matches, `None` otherwise.
pub fn detect_yn_prompt(msg: &str) -> (r: Option<YesNoFormat>)
    ensures
        r == yn_prompt_of(msg@),
{
    let long_form = finds("(?i)[\\[\\(]\\s*yes\\s*/\\s*no\\s*[\\]\\)]", msg);
    if long_form {
        return prompt_format(true, false);
    }
    let short_form = finds("(?i)[\\[\\(]\\s*y\\s*/\\s*n\\s*[\\]\\)]", msg);
    prompt_format(false, short_form)
}


/// When a message holds both forms, the long yes/no form wins; a message that holds
/// neither is no prompt.
pub proof fn law_long_form_preferred(msg: Seq<char>)
    ensures
        found(yes_no_pattern(), msg) ==> yn_prompt_of(msg) == Some(YesNoFormat::YesNo),
        !found(yes_no_pattern(), msg) && found(y_n_pattern(), msg) ==> yn_prompt_of(msg) == Some(
            YesNoFormat::YN,
        ),
        !found(yes_no_pattern(), msg) && !found(y_n_pattern(), msg) ==> yn_prompt_of(msg) is None,
{
}

} // verus!
