//! What to make of a line that the operator has entered.

use vstd::prelude::*;
use vstd::string::*;

verus! {

/// Whether `c` is white space, as `char::is_whitespace` tells it.
pub uninterp spec fn white_space(c: char) -> bool;

/// `char::is_whitespace` of std: whether the character has the Unicode
/// property White_Space. The answer depends on the character alone; which
/// characters have the property is not stated here.
#[verifier::external_body]
fn is_whitespace(c: char) -> (yes: bool)
    ensures
        yes == white_space(c),
{
    c.is_whitespace()
}

/// A text of white space only; the empty text is one.
pub open spec fn blank(text: Seq<char>) -> bool {
    forall|i: int| 0 <= i < text.len() ==> white_space(#[trigger] text[i])
}

/// `text` without the white space that it begins with.
pub open spec fn without_leading(text: Seq<char>) -> Seq<char>
    decreases text.len(),
{
    if text.len() > 0 && white_space(text[0]) {
        without_leading(text.drop_first())
    } else {
        text
    }
}

/// `text` without the white space that it ends with.
pub open spec fn without_trailing(text: Seq<char>) -> Seq<char>
    decreases text.len(),
{
    if text.len() > 0 && white_space(text.last()) {
        without_trailing(text.drop_last())
    } else {
        text
    }
}

/// `text` without the white space at either end.
pub open spec fn trimmed(text: Seq<char>) -> Seq<char> {
    without_trailing(without_leading(text))
}

/// What a line of input leads to.
#[derive(Debug, PartialEq, Eq)]
pub enum InputOutcome {
    /// The input has ended without a line: leave without an error.
    EndOfInput,
    /// The line holds white space only: ask again.
    Blank,
    /// The payload: the line without the white space at either end.
    Payload(String),
}

/// Where the leading white space of `text` ends at `from`, what is left
/// begins there.
pub proof fn lemma_without_leading(text: Seq<char>, from: int)
    requires
        0 <= from <= text.len(),
        blank(text.subrange(0, from)),
        from < text.len() ==> !white_space(text[from]),
    ensures
        without_leading(text) == text.subrange(from, text.len() as int),
    decreases from,
{
    if from > 0 {
        assert(text.subrange(0, from)[0] == text[0]);
        let rest = text.drop_first();
        assert forall|i: int| 0 <= i < from - 1 implies white_space(
            #[trigger] rest.subrange(0, from - 1)[i],
        ) by {
            assert(text.subrange(0, from)[i + 1] == rest.subrange(0, from - 1)[i]);
        }
        lemma_without_leading(rest, from - 1);
        assert(rest.subrange(from - 1, rest.len() as int) =~= text.subrange(
            from,
            text.len() as int,
        ));
    }
}

/// Where the trailing white space of `text` begins at `to`, what is left ends
/// there.
pub proof fn lemma_without_trailing(text: Seq<char>, to: int)
    requires
        0 <= to <= text.len(),
        blank(text.subrange(to, text.len() as int)),
        to > 0 ==> !white_space(text[to - 1]),
    ensures
        without_trailing(text) == text.subrange(0, to),
    decreases text.len() - to,
{
    if to < text.len() {
        let tail = text.subrange(to, text.len() as int);
        assert(tail[tail.len() - 1] == text.last());
        let rest = text.drop_last();
        assert forall|i: int| 0 <= i < rest.len() - to implies white_space(
            #[trigger] rest.subrange(to, rest.len() as int)[i],
        ) by {
            assert(tail[i] == rest.subrange(to, rest.len() as int)[i]);
        }
        lemma_without_trailing(rest, to);
    }
}

/// Nothing is left of a text exactly if it was white space only.
pub proof fn lemma_trimmed_empty_iff_blank(text: Seq<char>)
    ensures
        trimmed(text).len() == 0 <==> blank(text),
    decreases text.len(),
{
    if text.len() > 0 && white_space(text[0]) {
        let rest = text.drop_first();
        lemma_trimmed_empty_iff_blank(rest);
        if blank(rest) {
            assert forall|i: int| 0 <= i < text.len() implies white_space(#[trigger] text[i]) by {
                if i > 0 {
                    assert(rest[i - 1] == text[i]);
                }
            }
        }
        if blank(text) {
            assert forall|i: int| 0 <= i < rest.len() implies white_space(#[trigger] rest[i]) by {
                assert(rest[i] == text[i + 1]);
            }
        }
    } else if text.len() > 0 {
        lemma_without_trailing_keeps_visible(text);
    }
}

/// A text that holds a character other than white space keeps one when its
/// trailing white space goes.
proof fn lemma_without_trailing_keeps_visible(text: Seq<char>)
    requires
        exists|i: int| 0 <= i < text.len() && !white_space(text[i]),
    ensures
        without_trailing(text).len() > 0,
    decreases text.len(),
{
    if text.len() > 0 && white_space(text.last()) {
        let i = choose|i: int| 0 <= i < text.len() && !white_space(text[i]);
        let rest = text.drop_last();
        assert(rest[i] == text[i]);
        lemma_without_trailing_keeps_visible(rest);
    }
}

/// Finds what is left of `line` without the white space at either end: the
/// index of its first character and the index after its last one.
fn visible_range(line: &str) -> (range: (usize, usize))
    ensures
        range.0 <= range.1 <= line@.len(),
        line@.subrange(range.0 as int, range.1 as int) == trimmed(line@),
{
    let total: usize = line.unicode_len();
    let mut first: usize = 0;
    let mut end: usize = 0;
    let mut at: usize = 0;
    let chars = line.chars();
    for c in it: chars
        invariant
            it.seq() == line@,
            total == line@.len(),
            at == it.index(),
            first <= end <= at <= total,
            blank(line@.subrange(0, first as int)),
            blank(line@.subrange(end as int, at as int)),
            first < end ==> !white_space(line@[first as int]) && !white_space(line@[end - 1]),
            first == end ==> first == at,
    {
        if is_whitespace(c) {
            if first == end {
                first = at + 1;
                end = at + 1;
            }
        } else {
            if first == end {
                first = at;
            }
            end = at + 1;
        }
        at = at + 1;
        proof {
            assert forall|i: int| 0 <= i < first implies white_space(
                #[trigger] line@.subrange(0, first as int)[i],
            ) by {
                if i < at - 1 {
                    assert(line@.subrange(0, at - 1)[i] == line@[i]);
                }
            }
            assert forall|i: int| 0 <= i < at - end implies white_space(
                #[trigger] line@.subrange(end as int, at as int)[i],
            ) by {
                if end + i < at - 1 {
                    assert(line@.subrange(end as int, at - 1)[i] == line@[end + i]);
                }
            }
        }
    }
    proof {
        let rest = line@.subrange(first as int, total as int);
        lemma_without_leading(line@, first as int);
        assert(rest.subrange(end - first, rest.len() as int) =~= line@.subrange(
            end as int,
            total as int,
        ));
        lemma_without_trailing(rest, end - first);
    }
    (first, end)
}

/// Decides what a line of input leads to, from the number of bytes that were
/// read and the line itself: the end of the input where nothing was read, a
/// repeated prompt where the line is blank, and otherwise the payload.
pub fn classify_line(bytes_read: usize, line: &str) -> (outcome: InputOutcome)
    ensures
        outcome is EndOfInput <==> bytes_read == 0,
        outcome is Blank <==> bytes_read > 0 && blank(line@),
        outcome matches InputOutcome::Payload(payload) ==> payload@ == trimmed(line@)
            && payload@.len() > 0,
{
    if bytes_read == 0 {
        return InputOutcome::EndOfInput;
    }
    let (first, end) = visible_range(line);
    proof {
        lemma_trimmed_empty_iff_blank(line@);
    }
    if first == end {
        InputOutcome::Blank
    } else {
        InputOutcome::Payload(String::from_str(line.substring_char(first, end)))
    }
}

} // verus!
