//! Recognising commit lines.
//!
//! A commit line begins with a full commit identifier: forty characters of
//! `[a-f0-9]`. The test is made by a regular expression that is compiled
//! once, from the pattern text `^[a-f0-9]{40}`.

use regex::Regex;
use vstd::prelude::*;

verus! {

/// `regex::Regex`, a compiled regular expression, carried as an opaque
/// value.
#[verifier::external_type_specification]
#[verifier::external_body]
pub struct ExRegex(regex::Regex);

/// `regex::Error`, the refusal of a pattern text, carried as an opaque
/// value.
#[verifier::external_type_specification]
#[verifier::external_body]
pub struct ExRegexError(regex::Error);

/// The commit-line pattern: at the start of the line, forty characters of
/// `[a-f0-9]`.
pub const COMMIT_PATTERN: &'static str = "^[a-f0-9]{40}";

/// The pattern text that a compiled regular expression was built from, as
/// `Regex::as_str` gives it back.
pub uninterp spec fn regex_source(re: Regex) -> Seq<char>;

/// One character of the class `[a-f0-9]`.
pub open spec fn is_lower_hex(c: char) -> bool {
    ('0' <= c && c <= '9') || ('a' <= c && c <= 'f')
}

/// Whether a line begins with forty characters of `[a-f0-9]`.
pub open spec fn has_commit_prefix(line: Seq<char>) -> bool {
    &&& line.len() >= 40
    &&& forall|i: int| 0 <= i < 40 ==> is_lower_hex(#[trigger] line[i])
}

/// `Regex::new` compiles a pattern text, and the regular expression it
/// returns remembers the text it was built from. It fails on a text that is
/// ill-formed or asks for too large a program. The text `^[a-f0-9]{40}` is
/// neither: an anchor, a class of two ranges and a counted repetition, each
/// as the crate's syntax writes it.
#[verifier::external_body]
fn regex_new(pattern: &str) -> (r: Result<Regex, regex::Error>)
    ensures
        pattern@ == COMMIT_PATTERN@ ==> r is Ok,
        r matches Ok(re) ==> regex_source(re) == pattern@,
{
    Regex::new(pattern)
}

/// `Regex::is_match` tells whether the regular expression matches anywhere
/// in the haystack. For one built from `^[a-f0-9]{40}` the syntax fixes the
/// answer: `^` matches only at the beginning of the haystack, `[a-f0-9]` one
/// character of that class, and `{40}` exactly forty of what precedes it.
#[verifier::external_body]
fn regex_is_match(re: &Regex, haystack: &str) -> (b: bool)
    requires
        regex_source(*re) == COMMIT_PATTERN@,
    ensures
        b == has_commit_prefix(haystack@),
{
    re.is_match(haystack)
}

/// The compiled commit-line pattern.
pub struct CommitPattern {
    re: Regex,
}

impl CommitPattern {
    /// The pattern text that the regular expression held here was compiled
    /// from.
    pub closed spec fn source(&self) -> Seq<char> {
        regex_source(self.re)
    }

    #[verifier::type_invariant]
    spec fn built_from_commit_pattern(&self) -> bool {
        self.source() == COMMIT_PATTERN@
    }

    /// Compiles the commit-line pattern: the regular expression held by the
    /// result is the one compiled from `COMMIT_PATTERN`.
    pub fn new() -> (pattern: CommitPattern)
        ensures
            pattern.source() == COMMIT_PATTERN@,
    {
        match regex_new(COMMIT_PATTERN) {
            Ok(re) => CommitPattern { re },
            Err(_) => unreached(),
        }
    }

    /// Whether `line` is a commit line.
    pub fn matches(&self, line: &str) -> (b: bool)
        ensures
            b == has_commit_prefix(line@),
    {
        proof {
            use_type_invariant(self);
        }
        regex_is_match(&self.re, line)
    }
}

/// A line of fewer than forty characters is no commit line.
pub proof fn lemma_short_line_is_no_commit_line(line: Seq<char>)
    requires
        line.len() < 40,
    ensures
        !has_commit_prefix(line),
{
}

/// A line with a character outside `[a-f0-9]` among its first forty, an
/// upper-case hexadecimal digit for one, is no commit line.
pub proof fn lemma_foreign_character_is_no_commit_line(line: Seq<char>, at: int)
    requires
        0 <= at < 40,
        at < line.len(),
        !is_lower_hex(line[at]),
    ensures
        !has_commit_prefix(line),
{
}

/// Whether a line is a commit line is decided by its first forty
/// characters: whatever follows them changes nothing.
pub proof fn lemma_commit_prefix_survives_appending(line: Seq<char>, tail: Seq<char>)
    requires
        has_commit_prefix(line),
    ensures
        has_commit_prefix(line + tail),
{
    assert forall|i: int| 0 <= i < 40 implies is_lower_hex(#[trigger] (line + tail)[i]) by {
        assert((line + tail)[i] == line[i]);
    }
}

} // verus!
