//! What holds of the parser whatever the bytes are and however they arrive.

use crate::rfb::{
    ascii_text, decode, drain_spec, encodings, feed, field16, field32, first_high,
    lemma_decode_bounds, lemma_line_end_at, line_end, pull_spec, Decoded, FrameView, LineEnd,
    ParseError, ParserState, Stage, MAX_VERSION_LINE,
};
use vstd::prelude::*;

verus! {

/// A pull that asks for more bytes leaves the parser, and so its queue,
/// exactly as it was.
pub proof fn lemma_starved_pull_changes_nothing(p: ParserState)
    requires
        pull_spec(p).1 == Ok::<Option<FrameView>, ParseError>(None),
    ensures
        pull_spec(p).0 == p,
{
}

/// The parser after `n` pulls.
pub open spec fn after_pulls(p: ParserState, n: nat) -> ParserState
    decreases n,
{
    if n == 0 {
        p
    } else {
        after_pulls(pull_spec(p).0, (n - 1) as nat)
    }
}

/// A pull that reports an error leaves the parser failed.
pub proof fn lemma_error_marks_failure(p: ParserState)
    requires
        pull_spec(p).1 is Err,
    ensures
        pull_spec(p).0.failed,
{
}

/// A failed parser stays as it is and every pull on it reports an error,
/// never a frame, however many pulls went before.
pub proof fn lemma_failure_is_sticky(p: ParserState, n: nat)
    requires
        p.failed,
    ensures
        after_pulls(p, n) == p,
        pull_spec(after_pulls(p, n)).1 == Err::<Option<FrameView>, ParseError>(
            ParseError::EarlierFailure,
        ),
    decreases n,
{
    if n > 0 {
        lemma_failure_is_sticky(p, (n - 1) as nat);
    }
}

/// The parser with more bytes at the tail of its queue.
pub open spec fn extend(p: ParserState, more: Seq<u8>) -> ParserState {
    ParserState { bytes: p.bytes + more, ..p }
}

/// Bytes that arrive later do not move the end of a line that was found, nor
/// take back the verdict that a line is too long.
proof fn lemma_line_end_stable(bytes: Seq<u8>, more: Seq<u8>, from: int)
    requires
        0 <= from,
        !(line_end(bytes, from) is Open),
    ensures
        line_end(bytes + more, from) == line_end(bytes, from),
    decreases MAX_VERSION_LINE + 1 - from,
{
    if from <= MAX_VERSION_LINE && from < bytes.len() && bytes[from] != 10 {
        lemma_line_end_stable(bytes, more, from + 1);
    }
}

/// Bytes that arrive later do not change what was found among the first
/// `end` bytes.
proof fn lemma_first_high_stable(bytes: Seq<u8>, more: Seq<u8>, from: int, end: int)
    requires
        0 <= from,
        end <= bytes.len(),
    ensures
        first_high(bytes + more, from, end) == first_high(bytes, from, end),
    decreases end - from,
{
    if from < end && bytes[from] < 128 {
        lemma_first_high_stable(bytes, more, from + 1, end);
    }
}

/// Once the head of the queue amounts to a frame or to a failure, bytes
/// that arrive later do not change that.
pub proof fn lemma_decode_stable(stage: Stage, bytes: Seq<u8>, more: Seq<u8>)
    requires
        !(decode(stage, bytes) is Incomplete),
    ensures
        decode(stage, bytes + more) == decode(stage, bytes),
{
    let longer = bytes + more;
    match stage {
        Stage::Version => {
            lemma_line_end_stable(bytes, more, 0);
            lemma_line_end_at(bytes, 0);
            if let LineEnd::At(end) = line_end(bytes, 0) {
                lemma_first_high_stable(bytes, more, 0, end);
                assert(ascii_text(longer, end) =~= ascii_text(bytes, end));
            }
        },
        Stage::SecuritySelection => {},
        Stage::ClientInit => {},
        Stage::Message => {
            assert(bytes.len() >= 1);
            if bytes[0] == 2 {
                assert(field16(longer, 2) == field16(bytes, 2));
                assert(encodings(longer, field16(bytes, 2) as nat) =~= encodings(
                    bytes,
                    field16(bytes, 2) as nat,
                ));
            } else if bytes[0] == 3 {
                assert(field16(longer, 2) == field16(bytes, 2));
                assert(field16(longer, 4) == field16(bytes, 4));
                assert(field16(longer, 6) == field16(bytes, 6));
                assert(field16(longer, 8) == field16(bytes, 8));
            } else if bytes[0] == 4 {
                assert(field32(longer, 4) == field32(bytes, 4));
            } else if bytes[0] == 5 {
                assert(field16(longer, 2) == field16(bytes, 2));
                assert(field16(longer, 4) == field16(bytes, 4));
            } else if bytes[0] == 6 {
                assert(field32(longer, 4) == field32(bytes, 4));
            }
        },
    }
}

/// Running the parser dry, then adding bytes and running it dry again,
/// hands out the same frames and ends in the same state as adding the bytes
/// first and running it dry once.
pub proof fn lemma_drain_then_extend(p: ParserState, more: Seq<u8>)
    ensures
        drain_spec(extend(p, more)).frames == drain_spec(p).frames + drain_spec(
            extend(drain_spec(p).state, more),
        ).frames,
        drain_spec(extend(p, more)).state == drain_spec(extend(drain_spec(p).state, more)).state,
    decreases p.bytes.len(),
{
    let first = drain_spec(p);
    let second = drain_spec(extend(first.state, more));
    let whole = drain_spec(extend(p, more));
    if p.failed || p.bytes.len() == 0 {
        assert(first.state == p);
        assert(whole.frames =~= first.frames + second.frames);
    } else {
        lemma_decode_bounds(p.stage, p.bytes);
        match decode(p.stage, p.bytes) {
            Decoded::Incomplete => {
                assert(first.state == p);
                assert(whole.frames =~= first.frames + second.frames);
            },
            Decoded::Invalid { error, used } => {
                lemma_decode_stable(p.stage, p.bytes, more);
                assert((p.bytes + more).skip(used as int) =~= p.bytes.skip(used as int) + more);
                assert(whole.frames =~= first.frames + second.frames);
            },
            Decoded::Complete { frame, used, next } => {
                lemma_decode_stable(p.stage, p.bytes, more);
                let q = pull_spec(p).0;
                assert((p.bytes + more).skip(used as int) =~= p.bytes.skip(used as int) + more);
                assert(pull_spec(extend(p, more)).0 == extend(q, more));
                lemma_drain_then_extend(q, more);
                assert(first.state == drain_spec(q).state);
                assert(whole.frames =~= first.frames + second.frames);
            },
        }
    }
}

/// Running the parser dry keeps the flag that tells whether the source has
/// ended.
pub proof fn lemma_drain_keeps_eof(p: ParserState)
    ensures
        drain_spec(p).state.eof == p.eof,
    decreases p.bytes.len(),
{
    if !p.failed && p.bytes.len() > 0 {
        lemma_decode_bounds(p.stage, p.bytes);
        if decode(p.stage, p.bytes) is Complete {
            lemma_drain_keeps_eof(pull_spec(p).0);
        }
    }
}

/// The frames handed out, and the parser afterwards, when the chunks are fed
/// one after another and the parser is run dry after each.
pub open spec fn feed_all(p: ParserState, chunks: Seq<Seq<u8>>) -> (Seq<FrameView>, ParserState)
    decreases chunks.len(),
{
    if chunks.len() == 0 {
        (Seq::empty(), p)
    } else {
        let first = drain_spec(feed(p, chunks.first()));
        let rest = feed_all(first.state, chunks.drop_first());
        (first.frames + rest.0, rest.1)
    }
}

/// However a run of bytes is cut into chunks, feeding the chunks one after
/// another hands out the frames, and leaves the parser in the state, that
/// feeding the whole run at once does.
pub proof fn lemma_chunking_is_invisible(p: ParserState, chunks: Seq<Seq<u8>>)
    requires
        !p.eof,
        chunks.len() > 0,
        forall|i: int| 0 <= i < chunks.len() ==> chunks[i].len() > 0,
    ensures
        chunks.flatten().len() > 0,
        feed_all(p, chunks).0 == drain_spec(feed(p, chunks.flatten())).frames,
        feed_all(p, chunks).1 == drain_spec(feed(p, chunks.flatten())).state,
    decreases chunks.len(),
{
    let head = chunks.first();
    let tail = chunks.drop_first();
    let first = drain_spec(feed(p, head));
    assert(chunks.flatten() =~= head + tail.flatten());
    if tail.len() == 0 {
        assert(tail.flatten() =~= Seq::<u8>::empty());
        assert(chunks.flatten() =~= head);
        assert(feed_all(first.state, tail).0 =~= Seq::<FrameView>::empty());
        assert(feed_all(p, chunks).0 =~= first.frames);
    } else {
        lemma_drain_keeps_eof(feed(p, head));
        assert forall|i: int| 0 <= i < tail.len() implies tail[i].len() > 0 by {
            assert(tail[i] == chunks[i + 1]);
        }
        lemma_chunking_is_invisible(first.state, tail);
        lemma_drain_then_extend(extend(p, head), tail.flatten());
        assert(feed(p, head) == extend(p, head));
        assert(feed(first.state, tail.flatten()) == extend(first.state, tail.flatten()));
        assert((p.bytes + head) + tail.flatten() =~= p.bytes + chunks.flatten());
        assert(extend(extend(p, head), tail.flatten()) == extend(p, chunks.flatten()));
    }
}

} // verus!
