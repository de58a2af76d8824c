//! What a log holds when every line is written over its beginning.
//!
//! The log is opened empty, and each line is written from offset zero without
//! cutting what was there. With lines of one width the log never grows past
//! that width and always holds the latest line, and nothing else.

use vstd::prelude::*;
use vstd::utf8::encode_utf8;
use crate::line::{lemma_stats_line_width, stats_line, LINE_WIDTH};

verus! {

/// The content after `line` is written over the beginning of `content`: what
/// lay beyond the line's end stays.
pub open spec fn written_over(content: Seq<u8>, line: Seq<u8>) -> Seq<u8> {
    if content.len() <= line.len() {
        line
    } else {
        line + content.subrange(line.len() as int, content.len() as int)
    }
}

/// The content of a log that was opened empty, after each of `lines` was
/// written over its beginning, the first of them first.
pub open spec fn log_after(lines: Seq<Seq<u8>>) -> Seq<u8>
    decreases lines.len(),
{
    if lines.len() == 0 {
        Seq::empty()
    } else {
        written_over(log_after(lines.drop_last()), lines.last())
    }
}

/// A log that has received lines of one width holds exactly the latest of
/// them.
pub proof fn lemma_log_holds_latest_line(lines: Seq<Seq<u8>>, width: nat)
    requires
        lines.len() > 0,
        forall|i: int| 0 <= i < lines.len() ==> (#[trigger] lines[i]).len() == width,
    ensures
        log_after(lines) == lines.last(),
        log_after(lines).len() == width,
    decreases lines.len(),
{
    let front = lines.drop_last();
    assert(lines[lines.len() - 1].len() == width);
    if front.len() == 0 {
        assert(log_after(front) =~= Seq::<u8>::empty());
    } else {
        assert forall|i: int| 0 <= i < front.len() implies (#[trigger] front[i]).len()
            == width by {
            assert(front[i] == lines[i]);
        }
        lemma_log_holds_latest_line(front, width);
    }
}

/// A statistics line written over an earlier one replaces it byte for byte:
/// the log keeps its length of `LINE_WIDTH` bytes.
pub proof fn lemma_stats_line_replaces_stats_line(
    earlier_count: nat,
    earlier_nanos: nat,
    count: nat,
    elapsed_nanos: nat,
)
    ensures
        written_over(
            encode_utf8(stats_line(earlier_count, earlier_nanos)),
            encode_utf8(stats_line(count, elapsed_nanos)),
        ) == encode_utf8(stats_line(count, elapsed_nanos)),
        encode_utf8(stats_line(count, elapsed_nanos)).len() == LINE_WIDTH,
{
    lemma_stats_line_width(earlier_count, earlier_nanos);
    lemma_stats_line_width(count, elapsed_nanos);
}

} // verus!
