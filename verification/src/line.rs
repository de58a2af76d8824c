//! The statistics line: a text of fixed width, so that writing it over its
//! predecessor never changes the length of what holds it.

use vstd::prelude::*;
use vstd::string::*;
use vstd::utf8::{encode_utf8, is_ascii_chars, is_ascii_chars_encode_utf8};
use crate::decimal::{
    decimal,
    format_hundredths,
    lemma_decimal_is_ascii,
    lemma_two_decimals_is_ascii,
    push_decimal,
    push_two_decimals,
    two_decimals,
};
use crate::rate::{average_speed, elapsed_hundredths, elapsed_in_hundredths, speed_hundredths};

verus! {

/// The width of every statistics line, in characters and in bytes.
pub const LINE_WIDTH: usize = 100;

/// The width of the field that holds the count.
pub const COUNT_FIELD_WIDTH: usize = 15;

/// `n` spaces.
pub open spec fn spaces(n: nat) -> Seq<char> {
    Seq::new(n, |i: int| ' ')
}

/// `text`, followed by as many spaces as it lacks to `width`; a longer text
/// is left as it is.
pub open spec fn left_justified(text: Seq<char>, width: nat) -> Seq<char> {
    if text.len() >= width {
        text
    } else {
        text + spaces((width - text.len()) as nat)
    }
}

/// `text` brought to exactly `width` characters: cut where it is longer,
/// followed by spaces where it is shorter.
pub open spec fn fitted(text: Seq<char>, width: nat) -> Seq<char> {
    if text.len() >= width {
        text.subrange(0, width as int)
    } else {
        text + spaces((width - text.len()) as nat)
    }
}

/// The statistics in full, before they are brought to the line's width:
/// `count` as it is, `elapsed` in hundredths of a second, `speed` in
/// hundredths of an operation per second.
pub open spec fn stats_text(count: nat, elapsed: nat, speed: nat) -> Seq<char> {
    "Processed: "@ + left_justified(decimal(count), COUNT_FIELD_WIDTH as nat) + " | Elapsed: "@
        + two_decimals(elapsed) + "s | Speed: "@ + two_decimals(speed) + "/s"@
}

/// The average speed as a summary shows it: with two decimal places.
pub open spec fn speed_text(count: nat, elapsed_nanos: nat) -> Seq<char> {
    two_decimals(speed_hundredths(count, elapsed_nanos))
}

/// The line that reports `count` operations after `elapsed_nanos`
/// nanoseconds.
pub open spec fn stats_line(count: nat, elapsed_nanos: nat) -> Seq<char> {
    fitted(
        stats_text(
            count,
            elapsed_hundredths(elapsed_nanos),
            speed_hundredths(count, elapsed_nanos),
        ),
        LINE_WIDTH as nat,
    )
}

/// A fitted text has the width asked for, and is plain ASCII where the text
/// was.
pub proof fn lemma_fitted_width(text: Seq<char>, width: nat)
    ensures
        fitted(text, width).len() == width,
        is_ascii_chars(text) ==> is_ascii_chars(fitted(text, width)),
{
}

/// The statistics in full are plain ASCII.
pub proof fn lemma_stats_text_is_ascii(count: nat, elapsed: nat, speed: nat)
    ensures
        is_ascii_chars(stats_text(count, elapsed, speed)),
{
    reveal_strlit("Processed: ");
    reveal_strlit(" | Elapsed: ");
    reveal_strlit("s | Speed: ");
    reveal_strlit("/s");
    lemma_decimal_is_ascii(count);
    lemma_two_decimals_is_ascii(elapsed);
    lemma_two_decimals_is_ascii(speed);
}

/// Whatever the count and the time, the line is exactly `LINE_WIDTH`
/// characters of plain ASCII, and so exactly `LINE_WIDTH` bytes.
pub proof fn lemma_stats_line_width(count: nat, elapsed_nanos: nat)
    ensures
        stats_line(count, elapsed_nanos).len() == LINE_WIDTH,
        is_ascii_chars(stats_line(count, elapsed_nanos)),
        encode_utf8(stats_line(count, elapsed_nanos)).len() == LINE_WIDTH,
{
    let text = stats_text(
        count,
        elapsed_hundredths(elapsed_nanos),
        speed_hundredths(count, elapsed_nanos),
    );
    lemma_stats_text_is_ascii(
        count,
        elapsed_hundredths(elapsed_nanos),
        speed_hundredths(count, elapsed_nanos),
    );
    lemma_fitted_width(text, LINE_WIDTH as nat);
    is_ascii_chars_encode_utf8(stats_line(count, elapsed_nanos));
}

/// For one count and one elapsed time, the statistics show the speed that
/// the summary shows: the full text ends with it, followed by `/s`.
pub proof fn lemma_stats_show_summary_speed(count: nat, elapsed_nanos: nat)
    ensures
        ({
            let text = stats_text(
                count,
                elapsed_hundredths(elapsed_nanos),
                speed_hundredths(count, elapsed_nanos),
            );
            let shown = speed_text(count, elapsed_nanos) + "/s"@;
            &&& text.len() >= shown.len()
            &&& text.subrange(text.len() - shown.len(), text.len() as int) == shown
        }),
{
    let text = stats_text(
        count,
        elapsed_hundredths(elapsed_nanos),
        speed_hundredths(count, elapsed_nanos),
    );
    let shown = speed_text(count, elapsed_nanos) + "/s"@;
    assert(text.subrange(text.len() - shown.len(), text.len() as int) =~= shown);
}

/// Appends `n` spaces.
pub fn push_spaces(out: &mut String, n: usize)
    ensures
        final(out)@ == old(out)@ + spaces(n as nat),
{
    let mut done: usize = 0;
    while done < n
        invariant
            done <= n,
            out@ == old(out)@ + spaces(done as nat),
        decreases n - done,
    {
        out.append(" ");
        done = done + 1;
        proof {
            reveal_strlit(" ");
        }
    }
}

/// Brings `text` to exactly `width` characters.
pub fn fit_width(text: &str, width: usize) -> (line: String)
    ensures
        line@ == fitted(text@, width as nat),
        line@.len() == width,
{
    let len: usize = text.unicode_len();
    if len >= width {
        String::from_str(text.substring_char(0, width))
    } else {
        let mut line = String::from_str(text);
        push_spaces(&mut line, width - len);
        line
    }
}

/// The statistics in full: the count, left-justified in its field, the
/// elapsed seconds and the speed, each with two decimal places.
pub fn format_stats(count: usize, elapsed: u128, speed: u128) -> (text: String)
    ensures
        text@ == stats_text(count as nat, elapsed as nat, speed as nat),
{
    let mut numeral = String::new();
    push_decimal(&mut numeral, count as u128);
    let digits: usize = numeral.as_str().unicode_len();
    let mut text = String::from_str("Processed: ");
    text.append(numeral.as_str());
    if digits < COUNT_FIELD_WIDTH {
        push_spaces(&mut text, COUNT_FIELD_WIDTH - digits);
    }
    text.append(" | Elapsed: ");
    push_two_decimals(&mut text, elapsed);
    text.append("s | Speed: ");
    push_two_decimals(&mut text, speed);
    text.append("/s");
    text
}

/// The average speed of `count` operations over `elapsed_nanos` nanoseconds,
/// as a summary shows it.
pub fn average_speed_text(count: usize, elapsed_nanos: u128) -> (text: String)
    ensures
        text@ == speed_text(count as nat, elapsed_nanos as nat),
{
    format_hundredths(average_speed(count, elapsed_nanos))
}

/// Renders the line that reports `count` operations after `elapsed_nanos`
/// nanoseconds: always `LINE_WIDTH` bytes.
pub fn render_stats_line(count: usize, elapsed_nanos: u128) -> (line: String)
    ensures
        line@ == stats_line(count as nat, elapsed_nanos as nat),
        line@.len() == LINE_WIDTH,
        is_ascii_chars(line@),
        encode_utf8(line@).len() == LINE_WIDTH,
{
    let elapsed: u128 = elapsed_in_hundredths(elapsed_nanos);
    let speed: u128 = average_speed(count, elapsed_nanos);
    let text = format_stats(count, elapsed, speed);
    proof {
        lemma_stats_line_width(count as nat, elapsed_nanos as nat);
    }
    fit_width(text.as_str(), LINE_WIDTH)
}

} // verus!
