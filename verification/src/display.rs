//! What is shown: the key hints of the footer and the visible part of a
//! scroll buffer. Both are values; drawing them is the caller's.

use std::collections::VecDeque;
use vstd::prelude::*;
use vstd::string::StringExecFns;
use vstd::string::StringSliceAdditionalSpecFns;
use vstd::utf8::{
    char_is_scalar, char_u32_cast, encode_scalar, encode_utf8, last_continuation_byte,
    leading_byte_width_1,
};
use crate::lines::{lemma_encode_push, lemma_marked_bytes, lemma_single_byte, LINE_FEED};
use crate::port::line_texts;
use crate::ui::Mode;

verus! {

/// A piece of the footer.
#[derive(Clone, Copy, Debug, PartialEq, Eq)]
pub struct FooterSpan {
    pub text: &'static str,
    /// Whether the piece is shown as a key, in the highlight style.
    pub highlighted: bool,
}

/// The footer for the modes in which no text is written.
pub open spec fn browsing_footer() -> Seq<(Seq<char>, bool)> {
    seq![
        ("Quit "@, false),
        (" Alt + q "@, true),
        (" Search "@, false),
        ("Alt + s "@, true),
        (" Scroll "@, false),
        (" \u{1f815} \u{1f817} "@, true),
    ]
}

/// The footer for the writing mode.
pub open spec fn writing_footer() -> Seq<(Seq<char>, bool)> {
    seq![
        ("Quit "@, false),
        (" Alt + q "@, true),
        (" Enter "@, false),
        (" \\n "@, true),
        (" Ctrl + z "@, false),
        (" \\x0A "@, true),
        (" Alt+d "@, false),
        (" DTR "@, true),
        (" Alt+r "@, false),
        (" RTS "@, true),
    ]
}

/// The footer of a mode: its pieces, each with whether it is a key.
pub open spec fn footer_of(mode: Mode) -> Seq<(Seq<char>, bool)> {
    match mode {
        Mode::Writing => writing_footer(),
        _ => browsing_footer(),
    }
}

/// The pieces as texts with their marks.
pub open spec fn span_views(spans: Seq<FooterSpan>) -> Seq<(Seq<char>, bool)> {
    spans.map_values(|span: FooterSpan| (span.text@, span.highlighted))
}

fn plain(text: &'static str) -> (span: FooterSpan)
    ensures
        span.text@ == text@,
        !span.highlighted,
{
    FooterSpan { text, highlighted: false }
}

fn key(text: &'static str) -> (span: FooterSpan)
    ensures
        span.text@ == text@,
        span.highlighted,
{
    FooterSpan { text, highlighted: true }
}

/// The footer of a mode, piece by piece.
pub fn render_footer(mode: &Mode) -> (spans: Vec<FooterSpan>)
    ensures
        span_views(spans@) == footer_of(*mode),
{
    let mut spans: Vec<FooterSpan> = Vec::new();
    spans.push(plain("Quit "));
    spans.push(key(" Alt + q "));
    match mode {
        Mode::Writing => {
            spans.push(plain(" Enter "));
            spans.push(key(" \\n "));
            spans.push(plain(" Ctrl + z "));
            spans.push(key(" \\x0A "));
            spans.push(plain(" Alt+d "));
            spans.push(key(" DTR "));
            spans.push(plain(" Alt+r "));
            spans.push(key(" RTS "));
        },
        _ => {
            spans.push(plain(" Search "));
            spans.push(key("Alt + s "));
            spans.push(plain(" Scroll "));
            spans.push(key(" \u{1f815} \u{1f817} "));
        },
    }
    assert(span_views(spans@) =~= footer_of(*mode));
    spans
}

/// The number of lines that the window is laid out for: the buffer's
/// length while the view follows the newest line, and the length as it
/// was while the view is scrolled back, though never more than the buffer
/// of the shown port holds.
pub fn shown_length(v_scroll: usize, previous: usize, count: usize) -> (len: usize)
    ensures
        len == if v_scroll == 0 || previous > count {
            count
        } else {
            previous
        },
{
    if v_scroll == 0 || previous > count {
        count
    } else {
        previous
    }
}

/// Where the window starts: `height` lines, less the two of the border,
/// before its end.
pub open spec fn window_start(len: usize, v_scroll: usize, height: u16) -> int {
    let start = window_end(len, v_scroll) - height;
    if start < 0 {
        2
    } else if start + 2 > usize::MAX {
        usize::MAX as int
    } else {
        start + 2
    }
}

/// Where the window ends: `v_scroll` lines before the last of `len`.
pub open spec fn window_end(len: usize, v_scroll: usize) -> int {
    if len >= v_scroll {
        len - v_scroll
    } else {
        0
    }
}

/// The lines of the window: from `window_start` up to `window_end`, none
/// where the start is not below the end.
pub fn visible_range(len: usize, v_scroll: usize, height: u16) -> (r: (usize, usize))
    ensures
        r.0 == window_start(len, v_scroll, height),
        r.1 == window_end(len, v_scroll),
{
    let end = len.saturating_sub(v_scroll);
    let start = end.saturating_sub(height as usize).saturating_add(2);
    (start, end)
}

/// A line as it is shown: with a line feed at its end, added where the
/// line does not end in one.
pub open spec fn shown_line(line: Seq<char>) -> Seq<char> {
    if line.len() > 0 && line.last() == '\n' {
        line
    } else {
        line.push('\n')
    }
}

/// Lines as they are shown, one after the other.
pub open spec fn shown_lines(lines: Seq<Seq<char>>) -> Seq<char>
    decreases lines.len(),
{
    if lines.len() == 0 {
        Seq::empty()
    } else {
        shown_lines(lines.drop_last()) + shown_line(lines.last())
    }
}

/// A text ends in a line feed just when its encoding ends in a line-feed
/// byte.
proof fn lemma_ends_in_line_feed(text: Seq<char>)
    ensures
        (text.len() > 0 && text.last() == '\n') <==> (encode_utf8(text).len() > 0 && encode_utf8(
            text,
        ).last() == LINE_FEED),
{
    if text.len() > 0 {
        let c = text.last();
        let s = c as u32;
        assert(text.drop_last().push(c) =~= text);
        lemma_encode_push(text.drop_last(), c);
        char_is_scalar(c);
        let bytes = encode_scalar(s);
        assert(bytes.len() > 0);
        assert(encode_utf8(text).last() == bytes.last());
        char_u32_cast(c, s);
        assert((c == '\n') == (s == 0x0au32));
        if s <= 0x7F {
            assert(bytes.last() == leading_byte_width_1(s));
            lemma_single_byte(s);
        } else {
            assert(bytes.last() == last_continuation_byte(s));
            lemma_marked_bytes((s & 0x3F) as u8);
        }
    } else {
        assert(encode_utf8(text) =~= Seq::<u8>::empty());
    }
}

/// The text of the lines from `start` up to `end`, each as it is shown.
pub fn visible_text(buffer: &VecDeque<String>, start: usize, end: usize) -> (text: String)
    requires
        end <= buffer@.len(),
    ensures
        text@ == if start < end {
            shown_lines(line_texts(buffer@).subrange(start as int, end as int))
        } else {
            Seq::<char>::empty()
        },
{
    let mut text = String::new();
    if start >= end {
        return text;
    }
    let ghost lines = line_texts(buffer@);
    let mut i = start;
    assert(lines.subrange(start as int, start as int) =~= Seq::<Seq<char>>::empty());
    while i < end
        invariant
            start <= i <= end <= buffer@.len(),
            lines == line_texts(buffer@),
            text@ == shown_lines(lines.subrange(start as int, i as int)),
        decreases end - i,
    {
        let line = buffer[i].as_str();
        let bytes = line.as_bytes();
        proof {
            lemma_ends_in_line_feed(line@);
            let upto = lines.subrange(start as int, i + 1);
            assert(upto.drop_last() =~= lines.subrange(start as int, i as int));
            assert(upto.last() == line@);
        }
        text.append(line);
        let n = bytes.len();
        if n == 0 || bytes[n - 1] != LINE_FEED {
            text.append("\n");
            proof {
                reveal_strlit("\n");
                assert(line@ + "\n"@ =~= line@.push('\n'));
            }
        }
        assert(text@ =~= shown_lines(lines.subrange(start as int, i as int)) + shown_line(line@));
        i += 1;
    }
    text
}

} // verus!
