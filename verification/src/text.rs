//! Bytes and text: lossy decoding, trimming, and the lines of a chunk.

use vstd::prelude::*;
use vstd::slice::{slice_subrange, slice_to_vec};
use vstd::utf8::{decode_utf8, valid_utf8};

verus! {

/// The text that `String::from_utf8_lossy` makes of the bytes: their decoding,
/// with U+FFFD in place of every sequence that is not UTF-8.
pub uninterp spec fn utf8_lossy(bytes: Seq<u8>) -> Seq<char>;

/// The text that `str::trim` leaves: the text without the white space at its
/// two ends.
pub uninterp spec fn trimmed(text: Seq<char>) -> Seq<char>;

/// Decodes bytes with `String::from_utf8_lossy`.
///
/// Claims that the text depends on the bytes alone, and that bytes which are
/// UTF-8 decode to the text they encode.
#[verifier::external_body]
pub(crate) fn decode_lossy(bytes: &[u8]) -> (text: String)
    ensures
        text@ == utf8_lossy(bytes@),
        valid_utf8(bytes@) ==> text@ == decode_utf8(bytes@),
{
    String::from_utf8_lossy(bytes).into_owned()
}

/// Trims a text with `str::trim`.
///
/// Claims that the result depends on the text alone.
#[verifier::external_body]
pub(crate) fn trim_text(text: &str) -> (r: String)
    ensures
        r@ == trimmed(text@),
{
    text.trim().to_string()
}

/// The byte that ends a line.
pub const LINE_FEED: u8 = 10;

/// The byte that may stand before a line feed and then belongs to the line ending.
pub const CARRIAGE_RETURN: u8 = 13;

/// The place of the first line feed among the bytes, or their number where
/// they hold none.
pub open spec fn line_end(bytes: Seq<u8>) -> nat
    decreases bytes.len(),
{
    if bytes.len() == 0 || bytes[0] == LINE_FEED {
        0
    } else {
        1 + line_end(bytes.drop_first())
    }
}

/// A line without the carriage return that stood before its line feed.
pub open spec fn without_carriage_return(line: Seq<u8>) -> Seq<u8> {
    if line.len() > 0 && line.last() == CARRIAGE_RETURN {
        line.drop_last()
    } else {
        line
    }
}

/// The lines of a chunk of bytes.
///
/// A line ends at a line feed, or at a carriage return with a line feed behind
/// it; the ending is no part of the line. What follows the last line feed is a
/// line of its own if it holds any byte, and is taken as it stands.
pub open spec fn lines_of(bytes: Seq<u8>) -> Seq<Seq<u8>>
    decreases bytes.len(),
{
    if bytes.len() == 0 {
        Seq::empty()
    } else {
        let end: nat = line_end(bytes);
        if end >= bytes.len() {
            seq![bytes]
        } else {
            seq![without_carriage_return(bytes.take(end as int))] + lines_of(
                bytes.skip(end as int + 1),
            )
        }
    }
}

/// The contents of each of the byte vectors, in order.
pub open spec fn byte_lines(lines: Seq<Vec<u8>>) -> Seq<Seq<u8>> {
    lines.map_values(|line: Vec<u8>| line@)
}

/// `line_end` is the place `end` where no line feed stands before `end` and
/// one stands at it, or the bytes end there.
pub proof fn lemma_line_end(bytes: Seq<u8>, end: int)
    requires
        0 <= end <= bytes.len(),
        forall|j: int| 0 <= j < end ==> bytes[j] != LINE_FEED,
        end == bytes.len() || bytes[end] == LINE_FEED,
    ensures
        line_end(bytes) == end,
    decreases end,
{
    if end > 0 {
        lemma_line_end(bytes.drop_first(), end - 1);
    }
}

/// Splits a chunk of bytes into its lines.
pub fn split_lines(chunk: &[u8]) -> (lines: Vec<Vec<u8>>)
    ensures
        byte_lines(lines@) == lines_of(chunk@),
{
    let mut lines: Vec<Vec<u8>> = Vec::new();
    let mut start: usize = 0;
    let mut at: usize = 0;
    proof {
        assert(chunk@.skip(0) == chunk@);
        assert(byte_lines(lines@) + lines_of(chunk@) == lines_of(chunk@));
    }
    while at < chunk.len()
        invariant
            start <= at <= chunk.len(),
            forall|j: int| start <= j < at ==> chunk@[j] != LINE_FEED,
            lines_of(chunk@) == byte_lines(lines@) + lines_of(chunk@.skip(start as int)),
        decreases chunk.len() - at,
    {
        if chunk[at] == LINE_FEED {
            let ghost rest = chunk@.skip(start as int);
            let ghost before = byte_lines(lines@);
            proof {
                lemma_line_end(rest, at - start);
                assert(rest.skip(at - start + 1) == chunk@.skip(at + 1));
                assert(rest.take(at - start) == chunk@.subrange(start as int, at as int));
            }
            let mut end: usize = at;
            if start < at && chunk[at - 1] == CARRIAGE_RETURN {
                end = at - 1;
            }
            let line = slice_to_vec(slice_subrange(chunk, start, end));
            proof {
                let whole = chunk@.subrange(start as int, at as int);
                assert(line@ == without_carriage_return(whole)) by {
                    if start < at && chunk@[at - 1] == CARRIAGE_RETURN {
                        assert(whole.last() == chunk@[at - 1]);
                        assert(whole.drop_last() == chunk@.subrange(start as int, end as int));
                    } else if start < at {
                        assert(whole.last() == chunk@[at - 1]);
                    }
                }
            }
            lines.push(line);
            proof {
                assert(byte_lines(lines@) == before + seq![line@]);
                assert(before + (seq![line@] + lines_of(chunk@.skip(at + 1))) == before + seq![
                    line@,
                ] + lines_of(chunk@.skip(at + 1)));
            }
            start = at + 1;
        }
        at += 1;
    }
    if start < chunk.len() {
        let ghost rest = chunk@.skip(start as int);
        let ghost before = byte_lines(lines@);
        proof {
            lemma_line_end(rest, chunk@.len() - start);
            assert(rest == chunk@.subrange(start as int, chunk@.len() as int));
        }
        let line = slice_to_vec(slice_subrange(chunk, start, chunk.len()));
        lines.push(line);
        proof {
            assert(byte_lines(lines@) == before + seq![line@]);
        }
    } else {
        proof {
            assert(chunk@.skip(start as int).len() == 0);
            assert(byte_lines(lines@) + Seq::<Seq<u8>>::empty() == byte_lines(lines@));
        }
    }
    lines
}

} // verus!
