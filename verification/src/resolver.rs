//! Resolving a commit to its message.
//!
//! The lookup itself is a subprocess and happens outside this library. What
//! is decided here is the command to run for a target, and the message to
//! show, and the complaint to file, for each way the run can end.

use crate::pattern::is_lower_hex;
use crate::text::decode_lossy;
use crate::text::lemma_trimmed_tight;
use crate::text::lemma_without_foreign;
use crate::text::lossy_text;
use crate::text::prefix;
use crate::text::remove_all;
use crate::text::take_chars;
use crate::text::trim;
use crate::text::trimmed;
use crate::text::white_space;
use crate::text::without;
use vstd::prelude::*;
use vstd::string::StringExecFns;
use vstd::utf8::encode_utf8;

verus! {

/// The history tool.
pub const TOOL: &'static str = "git";

/// The tree-dereference marker that may follow a commit identifier.
pub const TREE_MARKER: &'static str = "^{tree}";

/// The message shown when a lookup fails.
pub const PLACEHOLDER: &'static str = "Commit message not available";

/// The lookup key of a target: the target without tree-dereference markers.
pub open spec fn commit_key(target: Seq<char>) -> Seq<char> {
    without(target, TREE_MARKER@)
}

/// The words of the lookup command for a target: the history tool's log
/// query with the given format template and colour mode, limited to one
/// entry, on the target's key.
pub open spec fn command_words(
    target: Seq<char>,
    format: Seq<char>,
    color: Seq<char>,
) -> Seq<Seq<char>> {
    seq![
        TOOL@,
        "log"@,
        "--format="@ + format,
        "--color="@ + color,
        "-n"@,
        "1"@,
        commit_key(target),
    ]
}

/// The display form of the tool's answer: trimmed, then cut to `limit`
/// characters where a limit is set.
pub open spec fn shown(raw: Seq<char>, limit: Option<usize>) -> Seq<char> {
    match limit {
        Some(n) => prefix(trimmed(raw), n as nat),
        None => trimmed(raw),
    }
}

/// How a lookup ended.
#[derive(Debug, PartialEq, Eq)]
pub enum LookupOutcome {
    /// The tool ran and exited, with status zero (`success`) or another.
    Exited { success: bool, stdout: Vec<u8>, stderr: Vec<u8> },
    /// The tool could not be started.
    LaunchFailed { reason: String },
}

impl LookupOutcome {
    /// Whether the tool ran and exited with status zero.
    pub open spec fn succeeded(self) -> bool {
        self matches LookupOutcome::Exited { success, .. } && success
    }

    /// The message this outcome resolves to.
    pub open spec fn message(self, limit: Option<usize>) -> Seq<char> {
        match self {
            LookupOutcome::Exited { success, stdout, .. } => if success {
                shown(lossy_text(stdout@), limit)
            } else {
                PLACEHOLDER@
            },
            LookupOutcome::LaunchFailed { .. } => PLACEHOLDER@,
        }
    }

    /// The complaint this outcome files about the lookup of `target`, if
    /// any.
    pub open spec fn complaint(self, target: Seq<char>) -> Option<Seq<char>> {
        match self {
            LookupOutcome::Exited { success, stderr, .. } => if success {
                None
            } else {
                Some(
                    "Error fetching commit message for "@ + target + ": "@ + lossy_text(stderr@),
                )
            },
            LookupOutcome::LaunchFailed { reason } => Some(
                "Failed to execute git command for "@ + target + ": "@ + reason@,
            ),
        }
    }
}

/// Strips the tree-dereference marker from a target.
pub fn clean_commit_ref(target: &str) -> (key: String)
    ensures
        key@ == commit_key(target@),
{
    remove_all(target, TREE_MARKER)
}

/// The command to run for a target, word by word, the program first.
pub fn lookup_command(target: &str, format: &str, color: &str) -> (words: Vec<String>)
    ensures
        words.deep_view() == command_words(target@, format@, color@),
{
    let mut format_word = String::from_str("--format=");
    format_word.append(format);
    let mut color_word = String::from_str("--color=");
    color_word.append(color);
    let mut words: Vec<String> = Vec::new();
    words.push(String::from_str(TOOL));
    words.push(String::from_str("log"));
    words.push(format_word);
    words.push(color_word);
    words.push(String::from_str("-n"));
    words.push(String::from_str("1"));
    words.push(clean_commit_ref(target));
    words
}

/// The display form of the tool's answer.
pub fn display_text(raw: &str, limit: Option<usize>) -> (text: String)
    ensures
        text@ == shown(raw@, limit),
{
    let tight = trim(raw);
    match limit {
        Some(n) => take_chars(tight.as_str(), n),
        None => tight,
    }
}

/// The message for a commit, given how its lookup ended: the tool's answer
/// in display form where the tool succeeded, the placeholder where it
/// failed or could not be started.
pub fn commit_message(outcome: &LookupOutcome, limit: Option<usize>) -> (message: String)
    ensures
        message@ == outcome.message(limit),
{
    match outcome {
        LookupOutcome::Exited { success, stdout, .. } => {
            if *success {
                let raw = decode_lossy(stdout.as_slice());
                display_text(raw.as_str(), limit)
            } else {
                String::from_str(PLACEHOLDER)
            }
        },
        LookupOutcome::LaunchFailed { .. } => String::from_str(PLACEHOLDER),
    }
}

/// The complaint to file about the lookup of `target`: none where the tool
/// succeeded, else the target with the tool's error text or the reason it
/// could not be started.
pub fn failure_report(target: &str, outcome: &LookupOutcome) -> (report: Option<String>)
    ensures
        match report {
            Some(text) => outcome.complaint(target@) == Some(text@),
            None => outcome.complaint(target@) is None,
        },
{
    match outcome {
        LookupOutcome::Exited { success, stderr, .. } => {
            if *success {
                None
            } else {
                let mut text = String::from_str("Error fetching commit message for ");
                text.append(target);
                text.append(": ");
                let detail = decode_lossy(stderr.as_slice());
                text.append(detail.as_str());
                Some(text)
            }
        },
        LookupOutcome::LaunchFailed { reason } => {
            let mut text = String::from_str("Failed to execute git command for ");
            text.append(target);
            text.append(": ");
            text.append(reason.as_str());
            Some(text)
        },
    }
}

/// A lookup that failed, by a non-zero exit or by not starting, resolves to
/// the placeholder, whole and not empty, whatever the tool wrote and
/// whatever the limit.
pub proof fn lemma_failure_gives_placeholder(outcome: LookupOutcome, limit: Option<usize>)
    requires
        !outcome.succeeded(),
    ensures
        outcome.message(limit) == PLACEHOLDER@,
        PLACEHOLDER@.len() == 28,
{
    reveal_strlit("Commit message not available");
}

/// The message of a lookup is empty only where the tool succeeded and
/// either wrote nothing but whitespace or the limit is zero.
pub proof fn lemma_message_empty_only_from_empty_answer(
    outcome: LookupOutcome,
    limit: Option<usize>,
)
    requires
        outcome.message(limit).len() == 0,
    ensures
        outcome.succeeded(),
        limit == Some(0usize) || trimmed(lossy_text(outcome->stdout@)).len() == 0,
{
    reveal_strlit("Commit message not available");
}

/// A full commit identifier followed by the tree-dereference marker has
/// the identifier as its key, and so has the identifier alone.
pub proof fn lemma_marker_stripped(id: Seq<char>)
    requires
        id.len() == 40,
        forall|i: int| 0 <= i < 40 ==> is_lower_hex(#[trigger] id[i]),
    ensures
        commit_key(id + TREE_MARKER@) == id,
        commit_key(id) == id,
{
    reveal_strlit("^{tree}");
    assert forall|i: int| 0 <= i < id.len() implies id[i] != TREE_MARKER@[0] by {
        assert(is_lower_hex(id[i]));
    }
    lemma_without_foreign(id, TREE_MARKER@);
}

/// Under a limit the display form is the beginning of the trimmed answer,
/// never longer than the limit, and the whole trimmed answer where that
/// fits.
pub proof fn lemma_limit_bounds(raw: Seq<char>, limit: usize)
    ensures
        shown(raw, Some(limit)).len() <= limit,
        shown(raw, Some(limit)) == trimmed(raw).take(shown(raw, Some(limit)).len() as int),
        trimmed(raw).len() <= limit ==> shown(raw, Some(limit)) == trimmed(raw),
{
}

/// An answer of at least `limit` characters, with no whitespace around it,
/// is cut to exactly its first `limit` characters.
pub proof fn lemma_limit_cuts(raw: Seq<char>, limit: usize)
    requires
        raw.len() >= limit,
        raw.len() > 0 ==> !white_space(raw.first()) && !white_space(raw.last()),
    ensures
        shown(raw, Some(limit)) == raw.take(limit as int),
        shown(raw, Some(limit)).len() == limit,
{
    lemma_trimmed_tight(raw);
}

/// A successful lookup whose output is the UTF-8 encoding of a text
/// resolves to that text in display form.
pub proof fn lemma_valid_output_is_shown(
    text: Seq<char>,
    stdout: Vec<u8>,
    stderr: Vec<u8>,
    limit: Option<usize>,
)
    requires
        stdout@ == encode_utf8(text),
    ensures
        (LookupOutcome::Exited { success: true, stdout, stderr }).message(limit) == shown(
            text,
            limit,
        ),
{
    broadcast use vstd::utf8::encode_utf8_valid_utf8, vstd::utf8::encode_utf8_decode_utf8;
}

} // verus!
