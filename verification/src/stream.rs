//! Successive read calls over a device's stream of polls.
//!
//! One read call ends at the first poll that completes a line, drops one
//! or cancels; the next call starts with an empty accumulator at the poll
//! after it. `outcomes` is what all the calls over a stream end with, in
//! order.

use vstd::prelude::*;
use crate::assembler::{assemble, line_outcome, spec_read_line, ReadEvent, ReadOutcome};
use vstd::utf8::encode_utf8;
use crate::lines::{
    lemma_decoded_line_of_text, lemma_encode_line_feed, lemma_encoded_line_feed_free,
    lemma_line_before_crlf, lemma_line_before_line_feed, line_feed_free, LINE_FEED,
};

verus! {

/// How the read calls over `events` end, one after the other, where the
/// first of them starts with `buffer` accumulated. A call that is still
/// waiting when the polls run out has no outcome.
pub open spec fn outcomes(buffer: Seq<u8>, events: Seq<ReadEvent>) -> Seq<ReadOutcome>
    decreases events.len(),
{
    if events.len() == 0 {
        Seq::empty()
    } else {
        let (next, outcome) = assemble(buffer, events[0]);
        let later = outcomes(next, events.drop_first());
        if outcome is Retry {
            later
        } else {
            seq![outcome] + later
        }
    }
}

/// The polls in which a device hands over `bytes` one by one.
pub open spec fn byte_events(bytes: Seq<u8>) -> Seq<ReadEvent> {
    bytes.map_values(|b: u8| ReadEvent::Byte(b))
}

/// The polls in which a device hands over one line after the other: the
/// bytes of each of `contents`, then a line feed.
pub open spec fn frames(contents: Seq<Seq<u8>>) -> Seq<ReadEvent>
    decreases contents.len(),
{
    if contents.len() == 0 {
        Seq::empty()
    } else {
        byte_events(contents[0].push(LINE_FEED)) + frames(contents.drop_first())
    }
}

/// A read call that has `buffer` accumulated and meets the bytes of
/// `content`, which holds no line feed, and then a line feed, ends there,
/// with the line of all these bytes, and leaves `rest` to the next call.
pub proof fn lemma_read_one_frame(buffer: Seq<u8>, content: Seq<u8>, rest: Seq<ReadEvent>)
    requires
        line_feed_free(content),
    ensures
        spec_read_line(buffer, byte_events(content.push(LINE_FEED)) + rest) == (
            line_outcome(buffer + content.push(LINE_FEED)),
            (content.len() + 1) as nat,
        ),
        outcomes(buffer, byte_events(content.push(LINE_FEED)) + rest) == seq![
            line_outcome(buffer + content.push(LINE_FEED)),
        ] + outcomes(Seq::empty(), rest),
    decreases content.len(),
{
    let events = byte_events(content.push(LINE_FEED)) + rest;
    if content.len() == 0 {
        assert(events[0] == ReadEvent::Byte(LINE_FEED));
        assert(events.drop_first() =~= rest);
        assert(buffer.push(LINE_FEED) =~= buffer + content.push(LINE_FEED));
    } else {
        let b = content[0];
        let tail = content.drop_first();
        assert(events[0] == ReadEvent::Byte(b));
        assert(events.drop_first() =~= byte_events(tail.push(LINE_FEED)) + rest);
        assert(buffer.push(b) + tail.push(LINE_FEED) =~= buffer + content.push(LINE_FEED));
        assert forall|i: int| 0 <= i < tail.len() implies #[trigger] tail[i] != LINE_FEED by {
            assert(tail[i] == content[i + 1]);
        }
        lemma_read_one_frame(buffer.push(b), tail, rest);
    }
}

/// Lines come out in the order in which the device sent them, each once:
/// over the frames of `contents`, none of which holds a line feed, the
/// read calls end with the line of each content in turn.
pub proof fn lemma_frames_in_order(contents: Seq<Seq<u8>>)
    requires
        forall|k: int| 0 <= k < contents.len() ==> line_feed_free(#[trigger] contents[k]),
    ensures
        outcomes(Seq::empty(), frames(contents)) == contents.map_values(
            |content: Seq<u8>| line_outcome(content.push(LINE_FEED)),
        ),
    decreases contents.len(),
{
    let expected = contents.map_values(|content: Seq<u8>| line_outcome(content.push(LINE_FEED)));
    if contents.len() == 0 {
        assert(outcomes(Seq::empty(), frames(contents)) =~= expected);
    } else {
        let first = contents[0];
        let others = contents.drop_first();
        assert forall|k: int| 0 <= k < others.len() implies line_feed_free(
            #[trigger] others[k],
        ) by {
            assert(others[k] == contents[k + 1]);
        }
        lemma_frames_in_order(others);
        lemma_read_one_frame(Seq::empty(), first, frames(others));
        assert(Seq::<u8>::empty() + first.push(LINE_FEED) =~= first.push(LINE_FEED));
        assert(seq![line_outcome(first.push(LINE_FEED))] + others.map_values(
            |content: Seq<u8>| line_outcome(content.push(LINE_FEED)),
        ) =~= expected);
    }
}

/// Text lines that a line feed ends come out as they went in: over the
/// frames of the encoded `lines`, none of which holds a line feed or ends
/// in a carriage return, the read calls end with each line in turn.
pub proof fn lemma_text_lines_in_order(lines: Seq<Seq<char>>)
    requires
        forall|k: int|
            0 <= k < lines.len() ==> !(#[trigger] lines[k]).contains('\n') && (lines[k].len() == 0
                || lines[k].last() != '\r'),
    ensures
        outcomes(
            Seq::empty(),
            frames(lines.map_values(|line: Seq<char>| encode_utf8(line))),
        ) == lines.map_values(|line: Seq<char>| ReadOutcome::Line(line)),
{
    let contents = lines.map_values(|line: Seq<char>| encode_utf8(line));
    assert forall|k: int| 0 <= k < contents.len() implies line_feed_free(
        #[trigger] contents[k],
    ) by {
        lemma_encoded_line_feed_free(lines[k]);
    }
    lemma_frames_in_order(contents);
    let got = contents.map_values(|content: Seq<u8>| line_outcome(content.push(LINE_FEED)));
    let expected = lines.map_values(|line: Seq<char>| ReadOutcome::Line(line));
    assert forall|k: int| 0 <= k < lines.len() implies got[k] == expected[k] by {
        lemma_encode_line_feed(lines[k]);
        lemma_decoded_line_of_text(lines[k].push('\n'));
        lemma_line_before_line_feed(lines[k]);
    }
    assert(got =~= expected);
}

/// Text lines that a carriage return and a line feed end come out without
/// them: over the frames of the encoded `lines`, none of which holds a line
/// feed, each with a carriage return added, the read calls end with each
/// line in turn.
pub proof fn lemma_crlf_lines_in_order(lines: Seq<Seq<char>>)
    requires
        forall|k: int| 0 <= k < lines.len() ==> !(#[trigger] lines[k]).contains('\n'),
    ensures
        outcomes(
            Seq::empty(),
            frames(lines.map_values(|line: Seq<char>| encode_utf8(line.push('\r')))),
        ) == lines.map_values(|line: Seq<char>| ReadOutcome::Line(line)),
{
    let contents = lines.map_values(|line: Seq<char>| encode_utf8(line.push('\r')));
    assert forall|k: int| 0 <= k < contents.len() implies line_feed_free(
        #[trigger] contents[k],
    ) by {
        let with_cr = lines[k].push('\r');
        assert forall|j: int| 0 <= j < with_cr.len() implies with_cr[j] != '\n' by {
            if j < lines[k].len() {
                assert(lines[k].contains(lines[k][j]));
            }
        }
        lemma_encoded_line_feed_free(with_cr);
    }
    lemma_frames_in_order(contents);
    let got = contents.map_values(|content: Seq<u8>| line_outcome(content.push(LINE_FEED)));
    let expected = lines.map_values(|line: Seq<char>| ReadOutcome::Line(line));
    assert forall|k: int| 0 <= k < lines.len() implies got[k] == expected[k] by {
        let with_cr = lines[k].push('\r');
        lemma_encode_line_feed(with_cr);
        lemma_decoded_line_of_text(with_cr.push('\n'));
        lemma_line_before_crlf(lines[k], Seq::empty());
        assert(with_cr.push('\n') =~= lines[k] + seq!['\r', '\n'] + Seq::<char>::empty());
    }
    assert(got =~= expected);
}

/// Cancellation ends a read call at the first poll that finds no bytes
/// waiting, whatever was accumulated, and the calls after it go on as if
/// they had started there.
pub proof fn lemma_cancel_ends_call(buffer: Seq<u8>, rest: Seq<ReadEvent>)
    ensures
        spec_read_line(buffer, seq![ReadEvent::Idle { cancel: true }] + rest) == (
            ReadOutcome::Cancelled,
            1nat,
        ),
        outcomes(buffer, seq![ReadEvent::Idle { cancel: true }] + rest) == seq![
            ReadOutcome::Cancelled,
        ] + outcomes(Seq::empty(), rest),
{
    let events = seq![ReadEvent::Idle { cancel: true }] + rest;
    assert(events[0] == ReadEvent::Idle { cancel: true });
    assert(events.drop_first() =~= rest);
}

/// A cancellation that finds the assembler idle, with nothing accumulated,
/// loses no data: the accumulator is as it was, and the lines that follow
/// are those that would have come without the cancellation.
pub proof fn lemma_cancel_when_idle(rest: Seq<ReadEvent>)
    ensures
        assemble(Seq::empty(), ReadEvent::Idle { cancel: true }) == (
            Seq::<u8>::empty(),
            ReadOutcome::Cancelled,
        ),
        outcomes(Seq::empty(), seq![ReadEvent::Idle { cancel: true }] + rest) == seq![
            ReadOutcome::Cancelled,
        ] + outcomes(Seq::empty(), rest),
{
    lemma_cancel_ends_call(Seq::empty(), rest);
}

/// A poll that finds no bytes and no cancellation, or whose read fails,
/// changes nothing: the calls end as they would without it.
pub proof fn lemma_quiet_poll(buffer: Seq<u8>, event: ReadEvent, rest: Seq<ReadEvent>)
    requires
        event is ReadFailed || event == (ReadEvent::Idle { cancel: false }),
    ensures
        outcomes(buffer, seq![event] + rest) == outcomes(buffer, rest),
{
    let events = seq![event] + rest;
    assert(events[0] == event);
    assert(events.drop_first() =~= rest);
}

/// The first read call over a stream ends as `spec_read_line` says, and
/// the calls after it are those over what it left.
pub proof fn lemma_outcomes_unfold(buffer: Seq<u8>, events: Seq<ReadEvent>)
    ensures
        spec_read_line(buffer, events).1 <= events.len(),
        spec_read_line(buffer, events).0 is Retry ==> outcomes(buffer, events) == Seq::<
            ReadOutcome,
        >::empty(),
        !(spec_read_line(buffer, events).0 is Retry) ==> outcomes(buffer, events) == seq![
            spec_read_line(buffer, events).0,
        ] + outcomes(Seq::empty(), events.skip(spec_read_line(buffer, events).1 as int)),
    decreases events.len(),
{
    if events.len() > 0 {
        let (next, outcome) = assemble(buffer, events[0]);
        if outcome is Retry {
            lemma_outcomes_unfold(next, events.drop_first());
            let taken = spec_read_line(next, events.drop_first()).1;
            assert(events.drop_first().skip(taken as int) =~= events.skip(taken as int + 1));
        } else {
            assert(events.drop_first() =~= events.skip(1));
        }
    }
}

} // verus!
