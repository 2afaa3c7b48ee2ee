//! The line formatter: one pass over a log, one line at a time.
//!
//! The formatter owns the running maximum of the line lengths it has seen.
//! For each line it widens that maximum and decides what comes next: a line
//! that is no commit line is emitted as it is, a commit line waits for its
//! message and is then emitted padded to the running maximum, followed by
//! the separator and the message.
//!
//! Lengths are measured in bytes, as `str::len` does; the fill of a padded
//! line counts characters, as formatting to a width does.

use crate::pattern::has_commit_prefix;
use crate::pattern::is_lower_hex;
use crate::pattern::lemma_commit_prefix_survives_appending;
use crate::pattern::CommitPattern;
use crate::text::byte_len;
use crate::text::byte_length;
use crate::text::first_token;
use crate::text::leading_run;
use crate::text::leading_token;
use crate::text::lemma_byte_len_bounds;
use crate::text::lemma_leading_run;
use crate::text::spaces;
use crate::text::white_space;
use vstd::prelude::*;
use vstd::string::StrSliceExecFns;
use vstd::string::StringExecFns;

verus! {

/// The running maximum after one more line.
pub open spec fn widened(width: nat, line: Seq<char>) -> nat {
    if byte_len(line) > width {
        byte_len(line)
    } else {
        width
    }
}

/// The running maximum after a run of lines, begun at `start`.
pub open spec fn width_after(start: nat, lines: Seq<Seq<char>>) -> nat
    decreases lines.len(),
{
    if lines.len() == 0 {
        start
    } else {
        widened(width_after(start, lines.drop_last()), lines.last())
    }
}

/// The number of spaces that pad `line` to `width` characters: none where
/// the line is that long already.
pub open spec fn fill(line: Seq<char>, width: nat) -> nat {
    if width > line.len() {
        (width - line.len()) as nat
    } else {
        0
    }
}

/// A commit line as it is emitted: the line, padded with spaces to
/// `width`, then the separator, then the message.
pub open spec fn rendered(
    line: Seq<char>,
    width: nat,
    separator: Seq<char>,
    message: Seq<char>,
) -> Seq<char> {
    line + spaces(fill(line, width)) + separator + message
}

/// What the formatter does next with a line it has read.
#[derive(Debug, PartialEq, Eq)]
pub enum Step {
    /// Emit this text: the line, unchanged.
    Emit { text: String },
    /// Look up the message of this target, the line's first token, and
    /// emit the line rendered with it.
    Lookup { target: String },
}

/// A step, with its strings read as character sequences.
pub enum StepView {
    Emit { text: Seq<char> },
    Lookup { target: Seq<char> },
}

impl View for Step {
    type V = StepView;

    open spec fn view(&self) -> StepView {
        match *self {
            Step::Emit { text } => StepView::Emit { text: text@ },
            Step::Lookup { target } => StepView::Lookup { target: target@ },
        }
    }
}

/// The step that a line calls for.
pub open spec fn next_step(line: Seq<char>) -> StepView {
    if has_commit_prefix(line) {
        StepView::Lookup { target: leading_token(line) }
    } else {
        StepView::Emit { text: line }
    }
}

/// Whether `emitted` is a line that a run may emit for line `i` of
/// `lines`, begun at width `start`: the line itself where it is no commit
/// line, else the line rendered at the running maximum with a message that
/// `resolve` may return for the line's first token.
pub open spec fn emitted_by<F: Fn(&str) -> String>(
    resolve: F,
    start: nat,
    separator: Seq<char>,
    lines: Seq<Seq<char>>,
    i: int,
    emitted: Seq<char>,
) -> bool {
    if has_commit_prefix(lines[i]) {
        exists|target: &str, message: String|
            #![trigger call_ensures(resolve, (target,), message)]
            {
                &&& target@ == leading_token(lines[i])
                &&& call_ensures(resolve, (target,), message)
                &&& emitted == rendered(
                    lines[i],
                    width_after(start, lines.take(i + 1)),
                    separator,
                    message@,
                )
            }
    } else {
        emitted == lines[i]
    }
}

/// The state of one pass over a log.
pub struct LineFormatter {
    pattern: CommitPattern,
    separator: String,
    width: usize,
}

impl LineFormatter {
    /// The running maximum of the lengths of the lines seen so far.
    pub closed spec fn width(&self) -> nat {
        self.width as nat
    }

    /// The separator between a padded commit line and its message.
    pub closed spec fn separator(&self) -> Seq<char> {
        self.separator@
    }

    /// A formatter that has seen no line yet.
    pub fn new(separator: &str) -> (formatter: LineFormatter)
        ensures
            formatter.width() == 0,
            formatter.separator() == separator@,
    {
        LineFormatter {
            pattern: CommitPattern::new(),
            separator: String::from_str(separator),
            width: 0,
        }
    }

    /// The running maximum of the lengths of the lines seen so far.
    pub fn max_line_length(&self) -> (n: usize)
        ensures
            n == self.width(),
    {
        self.width
    }

    /// Takes in one line: widens the running maximum by the line's length
    /// and says what to do with the line.
    pub fn observe(&mut self, line: &str) -> (step: Step)
        ensures
            final(self).width() == widened(old(self).width(), line@),
            final(self).separator() == old(self).separator(),
            step@ == next_step(line@),
    {
        let n = byte_length(line);
        if n > self.width {
            self.width = n;
        }
        if self.pattern.matches(line) {
            Step::Lookup { target: first_token(line) }
        } else {
            Step::Emit { text: String::from_str(line) }
        }
    }

    /// Renders a commit line with its message, at the current running
    /// maximum.
    pub fn render(&self, line: &str, message: &str) -> (out: String)
        ensures
            out@ == rendered(line@, self.width(), self.separator(), message@),
    {
        let mut out = String::from_str(line);
        let n = line.unicode_len();
        let mut k: usize = n;
        while k < self.width
            invariant
                n == line@.len(),
                n <= k,
                k <= self.width || k == n,
                out@ == line@ + spaces((k - n) as nat),
            decreases self.width - k,
        {
            out.push(' ');
            k = k + 1;
        }
        out.append(self.separator.as_str());
        out.append(message);
        out
    }

    /// Formats a whole log held in memory: takes in each line in turn, asks
    /// `resolve` for the message of each commit line, and returns the
    /// emitted lines, one for each line read, in order. The resolver must
    /// accept the first token of every commit line of the log.
    pub fn run<F: Fn(&str) -> String>(
        &mut self,
        lines: &Vec<String>,
        resolve: F,
    ) -> (out: Vec<String>)
        requires
            forall|i: int, target: &str|
                0 <= i < lines.len() && has_commit_prefix(lines[i]@) && target@ == leading_token(
                    lines[i]@,
                ) ==> call_requires(resolve, (target,)),
        ensures
            final(self).separator() == old(self).separator(),
            final(self).width() == width_after(old(self).width(), lines.deep_view()),
            out.len() == lines.len(),
            forall|i: int|
                0 <= i < lines.len() && !has_commit_prefix(lines[i]@) ==> out[i]@ == lines[i]@,
            forall|i: int|
                0 <= i < lines.len() ==> emitted_by(
                    resolve,
                    old(self).width(),
                    old(self).separator(),
                    lines.deep_view(),
                    i,
                    #[trigger] out[i]@,
                ),
    {
        let ghost start = self.width();
        let ghost separator = self.separator();
        let ghost all = lines.deep_view();
        let mut out: Vec<String> = Vec::new();
        let mut i: usize = 0;
        while i < lines.len()
            invariant
                i <= lines.len(),
                all == lines.deep_view(),
                forall|j: int, target: &str|
                    0 <= j < lines.len() && has_commit_prefix(lines[j]@) && target@
                        == leading_token(lines[j]@) ==> call_requires(resolve, (target,)),
                self.separator() == separator,
                self.width() == width_after(start, all.take(i as int)),
                out.len() == i,
                forall|j: int|
                    0 <= j < i ==> emitted_by(
                        resolve,
                        start,
                        separator,
                        all,
                        j,
                        #[trigger] out[j]@,
                    ),
            decreases lines.len() - i,
        {
            let line = lines[i].as_str();
            proof {
                assert(all.take(i + 1).drop_last() =~= all.take(i as int));
            }
            let emitted = match self.observe(line) {
                Step::Emit { text } => text,
                Step::Lookup { target } => {
                    let message = resolve(target.as_str());
                    self.render(line, message.as_str())
                },
            };
            out.push(emitted);
            i = i + 1;
        }
        proof {
            assert(all.take(lines.len() as int) =~= all);
            assert forall|k: int|
                0 <= k < lines.len() && !has_commit_prefix(lines[k]@) implies out[k]@
                == lines[k]@ by {
                assert(emitted_by(resolve, start, separator, all, k, out[k]@));
            }
        }
        out
    }
}

/// An emitted commit line reads, from left to right: the line as it came
/// in, so its first forty characters are the identifier still; spaces and
/// nothing else; the separator; the message. It is a commit line still.
pub proof fn lemma_rendered_parts(
    line: Seq<char>,
    width: nat,
    separator: Seq<char>,
    message: Seq<char>,
)
    ensures
        ({
            let out = rendered(line, width, separator, message);
            let padded = (line.len() + fill(line, width)) as int;
            &&& out.len() == padded + separator.len() + message.len()
            &&& out.take(line.len() as int) == line
            &&& forall|k: int| line.len() <= k < padded ==> out[k] == ' '
            &&& out.subrange(padded, padded + separator.len()) == separator
            &&& out.skip(padded + separator.len()) == message
            &&& has_commit_prefix(line) ==> out.take(40) == line.take(40) && has_commit_prefix(
                out,
            )
        }),
{
    if has_commit_prefix(line) {
        lemma_commit_prefix_survives_appending(
            line,
            spaces(fill(line, width)) + separator + message,
        );
    }
}

/// The width after a run of lines is the maximum of the starting width and
/// the lengths of the lines: it is below none of them, and it is one of
/// them. For a formatter that began at zero it is the length of the longest
/// line.
pub proof fn lemma_width_is_running_maximum(start: nat, lines: Seq<Seq<char>>)
    ensures
        start <= width_after(start, lines),
        forall|k: int|
            0 <= k < lines.len() ==> byte_len(#[trigger] lines[k]) <= width_after(start, lines),
        width_after(start, lines) == start || exists|k: int|
            0 <= k < lines.len() && width_after(start, lines) == byte_len(#[trigger] lines[k]),
        start == 0 && lines.len() > 0 ==> exists|k: int|
            0 <= k < lines.len() && width_after(start, lines) == byte_len(#[trigger] lines[k]),
    decreases lines.len(),
{
    if lines.len() > 0 {
        let before = lines.drop_last();
        lemma_width_is_running_maximum(start, before);
        assert forall|k: int| 0 <= k < lines.len() implies byte_len(#[trigger] lines[k])
            <= width_after(start, lines) by {
            if k < before.len() {
                assert(before[k] == lines[k]);
            }
        }
        let w = width_after(start, lines);
        if w != start && w != byte_len(lines.last()) {
            let k = choose|k: int|
                0 <= k < before.len() && width_after(start, before) == byte_len(
                    #[trigger] before[k],
                );
            assert(lines[k] == before[k]);
        }
    }
}

/// The running maximum never shrinks as more lines are read.
pub proof fn lemma_width_never_shrinks(start: nat, lines: Seq<Seq<char>>, n: int, m: int)
    requires
        0 <= n <= m <= lines.len(),
    ensures
        width_after(start, lines.take(n)) <= width_after(start, lines.take(m)),
    decreases m - n,
{
    if n < m {
        lemma_width_never_shrinks(start, lines, n, m - 1);
        assert(lines.take(m).drop_last() =~= lines.take(m - 1));
    }
}

/// The width at which line `i` is emitted is the maximum over the lines up
/// to and including it, so it is not below the line's own length, and the
/// padded line is exactly that many characters long.
pub proof fn lemma_padding_reaches_width(start: nat, lines: Seq<Seq<char>>, i: int)
    requires
        0 <= i < lines.len(),
    ensures
        ({
            let width = width_after(start, lines.take(i + 1));
            &&& width == widened(width_after(start, lines.take(i)), lines[i])
            &&& byte_len(lines[i]) <= width
            &&& lines[i].len() + fill(lines[i], width) == width
        }),
{
    assert(lines.take(i + 1).drop_last() =~= lines.take(i));
    lemma_byte_len_bounds(lines[i]);
}

/// A log without commit lines passes through unchanged, line for line and
/// in order, whatever the resolver, the separator and the starting width.
/// So formatting such a log a second time changes nothing either.
pub proof fn lemma_plain_log_passes_unchanged<F: Fn(&str) -> String>(
    resolve: F,
    start: nat,
    separator: Seq<char>,
    lines: Seq<Seq<char>>,
    out: Seq<Seq<char>>,
)
    requires
        forall|i: int| 0 <= i < lines.len() ==> !has_commit_prefix(#[trigger] lines[i]),
        out.len() == lines.len(),
        forall|i: int|
            0 <= i < lines.len() ==> emitted_by(
                resolve,
                start,
                separator,
                lines,
                i,
                #[trigger] out[i],
            ),
    ensures
        out == lines,
{
    assert forall|i: int| 0 <= i < lines.len() implies out[i] == lines[i] by {
        assert(emitted_by(resolve, start, separator, lines, i, out[i]));
    }
}

/// A character of `[a-f0-9]` is no whitespace.
pub proof fn lemma_hex_is_no_whitespace(c: char)
    requires
        is_lower_hex(c),
    ensures
        !white_space(c),
{
}

/// The first token of a commit line starts where the line starts and holds
/// the whole identifier, so a commit line always has a target to look up.
pub proof fn lemma_commit_line_token(line: Seq<char>)
    requires
        has_commit_prefix(line),
    ensures
        leading_token(line).len() >= 40,
        leading_token(line).take(40) == line.take(40),
        leading_token(line) == line.take(leading_token(line).len() as int),
{
    lemma_hex_is_no_whitespace(line[0]);
    assert(line.skip(0) =~= line);
    lemma_leading_run(line, false);
    let run = leading_run(line, false);
    if run < 40 {
        lemma_hex_is_no_whitespace(line[run as int]);
    }
}

/// Where whitespace, or nothing, follows the identifier of a commit line,
/// the line's first token is the identifier.
pub proof fn lemma_token_is_identifier(line: Seq<char>)
    requires
        has_commit_prefix(line),
        line.len() > 40 ==> white_space(line[40]),
    ensures
        leading_token(line) == line.take(40),
{
    lemma_commit_line_token(line);
    lemma_leading_run(line, false);
    assert(line.skip(0) =~= line);
}

} // verus!
