//! Text as sequences of characters: the vocabulary the contracts speak in,
//! and the string operations built on it.
//!
//! Every operation decodes its input into characters once, works on the
//! characters, and builds its answer character by character, so that each
//! contract is an equation between character sequences.

use vstd::prelude::*;
use vstd::slice::slice_subrange;
use vstd::utf8::decode_utf8;
use vstd::utf8::encode_utf8;
use vstd::utf8::valid_utf8;

verus! {

/// What `char::is_whitespace` answers for a character beyond U+007F:
/// whether the Unicode property White_Space lists it.
pub uninterp spec fn unicode_white_space(c: char) -> bool;

/// `char::is_whitespace` tells whether a character has the Unicode property
/// White_Space. Up to U+007F the property lists the space and U+0009 to
/// U+000D, and the contract says so; beyond, it names the answer.
pub assume_specification[ char::is_whitespace ](c: char) -> (b: bool)
    ensures
        c <= '\x7f' ==> b == (c == ' ' || ('\x09' <= c && c <= '\x0d')),
        c > '\x7f' ==> b == unicode_white_space(c),
;

/// `String::push` appends one character to the end of a string.
pub assume_specification[ String::push ](s: &mut String, ch: char)
    ensures
        final(s)@ == old(s)@.push(ch),
;

/// What `String::from_utf8_lossy` makes of bytes that are not valid UTF-8:
/// the text in which each invalid sequence is replaced by U+FFFD.
pub uninterp spec fn lossy_repair(bytes: Seq<u8>) -> Seq<char>;

/// `String::from_utf8_lossy` decodes bytes as UTF-8 and never fails: valid
/// input comes back as the text it encodes, and in invalid input each
/// invalid sequence is replaced by U+FFFD. The contract names the second
/// result.
#[verifier::external_body]
pub(crate) fn decode_lossy(bytes: &[u8]) -> (text: String)
    ensures
        valid_utf8(bytes@) ==> text@ == decode_utf8(bytes@),
        !valid_utf8(bytes@) ==> text@ == lossy_repair(bytes@),
{
    String::from_utf8_lossy(bytes).into_owned()
}

/// Whether a character is whitespace, as `char::is_whitespace` sees it.
pub open spec fn white_space(c: char) -> bool {
    if c <= '\x7f' {
        c == ' ' || ('\x09' <= c && c <= '\x0d')
    } else {
        unicode_white_space(c)
    }
}

/// The text that a lossy decoding reads from bytes: the text they encode
/// where they are valid UTF-8, the repaired text where they are not.
pub open spec fn lossy_text(bytes: Seq<u8>) -> Seq<char> {
    if valid_utf8(bytes) {
        decode_utf8(bytes)
    } else {
        lossy_repair(bytes)
    }
}

/// The number of bytes in the UTF-8 encoding of a text, which is what
/// `str::len` measures.
pub open spec fn byte_len(s: Seq<char>) -> nat {
    encode_utf8(s).len()
}

/// A run of `n` spaces.
pub open spec fn spaces(n: nat) -> Seq<char> {
    Seq::new(n, |i: int| ' ')
}

/// The length of the longest prefix of `s` whose characters are all
/// whitespace (`blank`) or all not whitespace (`!blank`).
pub open spec fn leading_run(s: Seq<char>, blank: bool) -> nat
    decreases s.len(),
{
    if s.len() > 0 && white_space(s.first()) == blank {
        1 + leading_run(s.drop_first(), blank)
    } else {
        0
    }
}

/// The length of the longest suffix of `s` made of whitespace.
pub open spec fn trailing_blanks(s: Seq<char>) -> nat
    decreases s.len(),
{
    if s.len() > 0 && white_space(s.last()) {
        1 + trailing_blanks(s.drop_last())
    } else {
        0
    }
}

/// `s` without its leading and trailing whitespace.
pub open spec fn trimmed(s: Seq<char>) -> Seq<char> {
    let rest = s.skip(leading_run(s, true) as int);
    rest.take(rest.len() - trailing_blanks(rest))
}

/// The first whitespace-delimited token of `s`: what follows the leading
/// whitespace, up to the next whitespace or the end. Empty when `s` holds
/// nothing but whitespace.
pub open spec fn leading_token(s: Seq<char>) -> Seq<char> {
    let rest = s.skip(leading_run(s, true) as int);
    rest.take(leading_run(rest, false) as int)
}

/// `s` with every occurrence of `pattern` taken out, found left to right
/// and never overlapping. An empty pattern takes nothing out.
pub open spec fn without(s: Seq<char>, pattern: Seq<char>) -> Seq<char>
    decreases s.len(),
{
    if pattern.len() == 0 || s.len() < pattern.len() {
        s
    } else if s.take(pattern.len() as int) == pattern {
        without(s.skip(pattern.len() as int), pattern)
    } else {
        seq![s.first()] + without(s.drop_first(), pattern)
    }
}

/// The first `n` characters of `s`, or all of `s` where it has fewer.
pub open spec fn prefix(s: Seq<char>, n: nat) -> Seq<char> {
    if n < s.len() {
        s.take(n as int)
    } else {
        s
    }
}

/// The bytes of a line as it is read, without the line feed that ends it
/// and without the carriage return before that line feed.
pub open spec fn chomped(bytes: Seq<u8>) -> Seq<u8> {
    if bytes.len() > 0 && bytes.last() == 0x0a {
        let rest = bytes.drop_last();
        if rest.len() > 0 && rest.last() == 0x0d {
            rest.drop_last()
        } else {
            rest
        }
    } else {
        bytes
    }
}

/// Every character takes at least one byte and at most four.
pub proof fn lemma_byte_len_bounds(s: Seq<char>)
    ensures
        s.len() <= byte_len(s) <= 4 * s.len(),
    decreases s.len(),
{
    if s.len() > 0 {
        lemma_byte_len_bounds(s.drop_first());
    }
}

/// A leading run ends inside the text, covers only characters of its kind,
/// and stops at the first character of the other kind.
pub proof fn lemma_leading_run(s: Seq<char>, blank: bool)
    ensures
        leading_run(s, blank) <= s.len(),
        forall|i: int| 0 <= i < leading_run(s, blank) ==> white_space(#[trigger] s[i]) == blank,
        leading_run(s, blank) < s.len() ==> white_space(s[leading_run(s, blank) as int]) != blank,
    decreases s.len(),
{
    if s.len() > 0 && white_space(s.first()) == blank {
        let rest = s.drop_first();
        lemma_leading_run(rest, blank);
        assert forall|i: int| 0 <= i < leading_run(s, blank) implies white_space(#[trigger] s[i])
            == blank by {
            if i > 0 {
                assert(s[i] == rest[i - 1]);
            }
        }
    }
}

/// The trailing whitespace ends with the text, covers only whitespace, and
/// is preceded by a character that is none.
pub proof fn lemma_trailing_blanks(s: Seq<char>)
    ensures
        trailing_blanks(s) <= s.len(),
        forall|i: int| s.len() - trailing_blanks(s) <= i < s.len() ==> white_space(#[trigger] s[i]),
        trailing_blanks(s) < s.len() ==> !white_space(s[s.len() - trailing_blanks(s) - 1]),
    decreases s.len(),
{
    if s.len() > 0 && white_space(s.last()) {
        let rest = s.drop_last();
        lemma_trailing_blanks(rest);
        assert forall|i: int| s.len() - trailing_blanks(s) <= i < s.len() implies white_space(
            #[trigger] s[i],
        ) by {
            if i < rest.len() {
                assert(s[i] == rest[i]);
            }
        }
    }
}

/// Trimming takes whitespace away from both ends and nothing else: the text
/// is whitespace, then its trimmed form, then whitespace, and the trimmed
/// form neither begins nor ends with whitespace.
pub proof fn lemma_trimmed_parts(s: Seq<char>)
    ensures
        ({
            let from = leading_run(s, true) as int;
            let to = from + trimmed(s).len();
            &&& 0 <= from <= to <= s.len()
            &&& trimmed(s) == s.subrange(from, to)
            &&& forall|i: int| 0 <= i < from ==> white_space(#[trigger] s[i])
            &&& forall|i: int| to <= i < s.len() ==> white_space(#[trigger] s[i])
            &&& trimmed(s).len() > 0 ==> !white_space(trimmed(s).first()) && !white_space(
                trimmed(s).last(),
            )
        }),
{
    let from = leading_run(s, true) as int;
    lemma_leading_run(s, true);
    let rest = s.skip(from);
    lemma_trailing_blanks(rest);
    let to = from + trimmed(s).len();
    assert forall|i: int| to <= i < s.len() implies white_space(#[trigger] s[i]) by {
        assert(s[i] == rest[i - from]);
    }
}

/// The first token stands after the leading whitespace, holds no
/// whitespace, and ends where whitespace or the end of the text follows.
pub proof fn lemma_leading_token_parts(s: Seq<char>)
    ensures
        ({
            let from = leading_run(s, true) as int;
            let to = from + leading_token(s).len();
            &&& 0 <= from <= to <= s.len()
            &&& leading_token(s) == s.subrange(from, to)
            &&& forall|i: int| 0 <= i < from ==> white_space(#[trigger] s[i])
            &&& forall|i: int| from <= i < to ==> !white_space(#[trigger] s[i])
            &&& to < s.len() ==> white_space(s[to])
            &&& leading_token(s).len() == 0 ==> from == s.len()
        }),
{
    let from = leading_run(s, true) as int;
    lemma_leading_run(s, true);
    let rest = s.skip(from);
    lemma_leading_run(rest, false);
    let to = from + leading_token(s).len();
    assert forall|i: int| from <= i < to implies !white_space(#[trigger] s[i]) by {
        assert(s[i] == rest[i - from]);
    }
}

/// A text that neither begins nor ends with whitespace is its own trimmed
/// form.
pub proof fn lemma_trimmed_tight(s: Seq<char>)
    requires
        s.len() > 0 ==> !white_space(s.first()) && !white_space(s.last()),
    ensures
        trimmed(s) == s,
{
}

/// A text in which the first character of `pattern` does not occur holds
/// no occurrence of `pattern`, so taking them out changes nothing, also
/// when one occurrence is appended to the text first.
pub proof fn lemma_without_foreign(s: Seq<char>, pattern: Seq<char>)
    requires
        pattern.len() > 0,
        forall|i: int| 0 <= i < s.len() ==> s[i] != pattern[0],
    ensures
        without(s, pattern) == s,
        without(s + pattern, pattern) == s,
    decreases s.len(),
{
    let n = pattern.len() as int;
    if s.len() == 0 {
        assert(pattern.take(n) =~= pattern);
        assert(without(pattern.skip(n), pattern) == pattern.skip(n));
    } else {
        let rest = s.drop_first();
        lemma_without_foreign(rest, pattern);
        assert((s + pattern).drop_first() =~= rest + pattern);
    }
}

/// The characters of a string, in order.
fn chars_of(s: &str) -> (chars: Vec<char>)
    ensures
        chars@ == s@,
{
    let mut chars: Vec<char> = Vec::new();
    for c in it: s.chars()
        invariant
            it.seq() == s@,
            chars@ == it.seq().take(it.index()),
    {
        chars.push(c);
    }
    chars
}

/// The string made of the characters `from..to` of a vector.
fn text_of(chars: &Vec<char>, from: usize, to: usize) -> (s: String)
    requires
        from <= to <= chars.len(),
    ensures
        s@ == chars@.subrange(from as int, to as int),
{
    let mut s = String::new();
    let mut i: usize = from;
    while i < to
        invariant
            from <= i <= to <= chars.len(),
            s@ == chars@.subrange(from as int, i as int),
        decreases to - i,
    {
        s.push(chars[i]);
        i = i + 1;
    }
    s
}

/// The text of a line as it is read from a stream: its bytes without the
/// line ending, decoded lossily.
pub fn decode_line(bytes: &[u8]) -> (line: String)
    ensures
        line@ == lossy_text(chomped(bytes@)),
{
    let mut end: usize = bytes.len();
    if end > 0 && bytes[end - 1] == 0x0a {
        end = end - 1;
        if end > 0 && bytes[end - 1] == 0x0d {
            end = end - 1;
        }
    }
    let kept = slice_subrange(bytes, 0, end);
    proof {
        assert(kept@ =~= chomped(bytes@));
    }
    decode_lossy(kept)
}

/// The length of a string in bytes.
pub fn byte_length(s: &str) -> (n: usize)
    ensures
        n == byte_len(s@),
{
    s.as_bytes().len()
}

/// The index at which the run of whitespace (`blank`) or of other
/// characters (`!blank`) that starts at `from` ends.
fn run_end(chars: &Vec<char>, from: usize, blank: bool) -> (end: usize)
    requires
        from <= chars.len(),
    ensures
        from <= end <= chars.len(),
        end - from == leading_run(chars@.skip(from as int), blank),
{
    let mut i: usize = from;
    while i < chars.len() && chars[i].is_whitespace() == blank
        invariant
            from <= i <= chars.len(),
            leading_run(chars@.skip(from as int), blank) == (i - from) + leading_run(
                chars@.skip(i as int),
                blank,
            ),
        decreases chars.len() - i,
    {
        proof {
            assert(chars@.skip(i as int).drop_first() =~= chars@.skip(i + 1));
        }
        i = i + 1;
    }
    i
}

/// The index at which the whitespace at the end of `chars[from..]` begins.
fn blank_tail_start(chars: &Vec<char>, from: usize) -> (start: usize)
    requires
        from <= chars.len(),
    ensures
        from <= start <= chars.len(),
        chars.len() - start == trailing_blanks(chars@.skip(from as int)),
{
    let mut j: usize = chars.len();
    while j > from && chars[j - 1].is_whitespace()
        invariant
            from <= j <= chars.len(),
            trailing_blanks(chars@.skip(from as int)) == (chars.len() - j) + trailing_blanks(
                chars@.subrange(from as int, j as int),
            ),
        decreases j,
    {
        proof {
            assert(chars@.subrange(from as int, j as int).drop_last() =~= chars@.subrange(
                from as int,
                j - 1,
            ));
        }
        j = j - 1;
    }
    j
}

/// Whether `pattern` stands in `chars` at index `at`.
fn occurs_at(chars: &Vec<char>, at: usize, pattern: &Vec<char>) -> (found: bool)
    requires
        at + pattern.len() <= chars.len(),
    ensures
        found == (chars@.subrange(at as int, at + pattern.len()) == pattern@),
{
    let mut k: usize = 0;
    while k < pattern.len()
        invariant
            k <= pattern.len(),
            at + pattern.len() <= chars.len(),
            chars@.subrange(at as int, at + k) == pattern@.take(k as int),
        decreases pattern.len() - k,
    {
        if chars[at + k] != pattern[k] {
            return false;
        }
        k = k + 1;
    }
    proof {
        assert(pattern@.take(pattern.len() as int) =~= pattern@);
    }
    true
}

/// Removes leading and trailing whitespace.
pub fn trim(text: &str) -> (out: String)
    ensures
        out@ == trimmed(text@),
{
    let chars = chars_of(text);
    let from = run_end(&chars, 0, true);
    let to = blank_tail_start(&chars, from);
    proof {
        assert(chars@.skip(0) =~= chars@);
    }
    text_of(&chars, from, to)
}

/// The first whitespace-delimited token of a line, empty where the line has
/// none.
pub fn first_token(line: &str) -> (token: String)
    ensures
        token@ == leading_token(line@),
{
    let chars = chars_of(line);
    let from = run_end(&chars, 0, true);
    let to = run_end(&chars, from, false);
    proof {
        assert(chars@.skip(0) =~= chars@);
    }
    text_of(&chars, from, to)
}

/// Takes every occurrence of `pattern` out of `text`.
pub fn remove_all(text: &str, pattern: &str) -> (out: String)
    ensures
        out@ == without(text@, pattern@),
{
    let chars = chars_of(text);
    let pat = chars_of(pattern);
    let mut out = String::new();
    let mut i: usize = 0;
    proof {
        assert(chars@.skip(0) =~= chars@);
    }
    while i < chars.len()
        invariant
            i <= chars.len(),
            without(chars@, pat@) == out@ + without(chars@.skip(i as int), pat@),
        decreases chars.len() - i,
    {
        let ghost rest = chars@.skip(i as int);
        if pat.len() > 0 && pat.len() <= chars.len() - i && occurs_at(&chars, i, &pat) {
            proof {
                assert(rest.take(pat.len() as int) =~= chars@.subrange(i as int, i + pat.len()));
                assert(rest.skip(pat.len() as int) =~= chars@.skip(i + pat.len()));
            }
            i = i + pat.len();
        } else {
            out.push(chars[i]);
            proof {
                assert(rest.drop_first() =~= chars@.skip(i + 1));
                if 0 < pat.len() <= rest.len() {
                    assert(rest.take(pat.len() as int) =~= chars@.subrange(
                        i as int,
                        i + pat.len(),
                    ));
                }
            }
            i = i + 1;
        }
    }
    out
}

/// The first `limit` characters of `text`, or all of it where it has fewer.
pub fn take_chars(text: &str, limit: usize) -> (out: String)
    ensures
        out@ == prefix(text@, limit as nat),
{
    let chars = chars_of(text);
    let to = if limit < chars.len() {
        limit
    } else {
        chars.len()
    };
    text_of(&chars, 0, to)
}

} // verus!

