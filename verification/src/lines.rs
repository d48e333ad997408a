//! Line framing: from the bytes that a device sends to lines of text.

use vstd::prelude::*;
use vstd::string::StrSliceExecFns;
use vstd::string::StringSliceAdditionalSpecFns;
use vstd::utf8::{
    char_is_scalar, decode_utf8, encode_scalar, encode_utf8, encode_utf8_decode_utf8,
    encode_utf8_valid_utf8, valid_utf8,
};
use crate::search::{first_index_of, lemma_first_index_of, lemma_first_index_of_is};

verus! {

/// The line-feed character, which ends a line.
pub const LINE_FEED: u8 = 0x0a;

/// Whether a carriage return stands at `i` with a line feed right after it.
pub open spec fn crlf_at(text: Seq<char>, i: int) -> bool {
    0 <= i && i + 1 < text.len() && text[i] == '\r' && text[i + 1] == '\n'
}

/// The index of the first carriage return that a line feed follows
/// directly, or `text.len()` when there is no such pair.
pub open spec fn first_crlf(text: Seq<char>) -> int
    decreases text.len(),
{
    if text.len() < 2 {
        text.len() as int
    } else if text[0] == '\r' && text[1] == '\n' {
        0
    } else {
        1 + first_crlf(text.drop_first())
    }
}

/// The line that a decoded buffer holds: what stands before its first
/// carriage-return and line-feed pair; without such a pair, what stands
/// before its first line feed; without a line feed, nothing.
pub open spec fn split_line(text: Seq<char>) -> Option<Seq<char>> {
    if first_crlf(text) < text.len() {
        Some(text.take(first_crlf(text)))
    } else if first_index_of(text, '\n') < text.len() {
        Some(text.take(first_index_of(text, '\n')))
    } else {
        None
    }
}

/// The line that a buffer of received bytes holds: none where the bytes
/// are not valid UTF-8, else the line of the text that they encode.
pub open spec fn decoded_line(buffer: Seq<u8>) -> Option<Seq<char>> {
    if valid_utf8(buffer) {
        split_line(decode_utf8(buffer))
    } else {
        None
    }
}

/// `first_crlf` lies within `0..=len`, no pair starts before it, and where
/// it is below `len` a pair starts there.
pub proof fn lemma_first_crlf(text: Seq<char>)
    ensures
        0 <= first_crlf(text) <= text.len(),
        forall|j: int| 0 <= j < first_crlf(text) ==> !crlf_at(text, j),
        first_crlf(text) < text.len() ==> crlf_at(text, first_crlf(text)),
    decreases text.len(),
{
    if text.len() >= 2 && !(text[0] == '\r' && text[1] == '\n') {
        let t = text.drop_first();
        lemma_first_crlf(t);
        assert forall|j: int| 0 <= j < first_crlf(text) implies !crlf_at(text, j) by {
            if j > 0 {
                assert(!crlf_at(t, j - 1));
            }
        }
        if first_crlf(text) < text.len() {
            assert(crlf_at(t, first_crlf(t)));
        }
    }
}

/// A position where a pair starts, or the length, before which no pair
/// starts is the first one.
pub proof fn lemma_first_crlf_is(text: Seq<char>, k: int)
    requires
        0 <= k <= text.len(),
        forall|j: int| 0 <= j < k ==> !crlf_at(text, j),
        k < text.len() ==> crlf_at(text, k),
    ensures
        first_crlf(text) == k,
{
    lemma_first_crlf(text);
}

/// Whether `content` holds no line-feed byte.
pub open spec fn line_feed_free(content: Seq<u8>) -> bool {
    forall|i: int| 0 <= i < content.len() ==> #[trigger] content[i] != LINE_FEED
}

/// A line that a carriage return and a line feed end is the line without
/// them, whatever follows.
pub proof fn lemma_line_before_crlf(line: Seq<char>, rest: Seq<char>)
    requires
        !line.contains('\n'),
    ensures
        split_line(line + seq!['\r', '\n'] + rest) == Some(line),
{
    let text = line + seq!['\r', '\n'] + rest;
    let k = line.len() as int;
    assert forall|j: int| 0 <= j < k implies !crlf_at(text, j) by {
        if j + 1 < k {
            assert(line.contains(line[j + 1]));
        }
    }
    assert(crlf_at(text, k));
    lemma_first_crlf_is(text, k);
    assert(text.take(k) =~= line);
}

/// A line that a line feed alone ends is the line without it, unless the
/// line ends in a carriage return, which then goes with the line feed.
pub proof fn lemma_line_before_line_feed(line: Seq<char>)
    requires
        !line.contains('\n'),
        line.len() == 0 || line.last() != '\r',
    ensures
        split_line(line.push('\n')) == Some(line),
{
    let text = line.push('\n');
    let k = line.len() as int;
    assert forall|j: int| 0 <= j < text.len() implies !crlf_at(text, j) by {
        if j + 1 < k {
            assert(line.contains(line[j + 1]));
        }
    }
    lemma_first_crlf_is(text, text.len() as int);
    assert forall|j: int| 0 <= j < k implies text[j] != '\n' by {
        assert(line.contains(line[j]));
    }
    lemma_first_index_of_is(text, '\n', k);
    assert(text.take(k) =~= line);
}

/// The bytes that encode a text hold the line of that text.
pub proof fn lemma_decoded_line_of_text(text: Seq<char>)
    ensures
        decoded_line(encode_utf8(text)) == split_line(text),
{
    encode_utf8_valid_utf8(text);
    encode_utf8_decode_utf8(text);
}

/// A byte with its top bit set is no line feed.
pub proof fn lemma_marked_bytes(x: u8)
    by (bit_vector)
    ensures
        0xC0u8 | x != 0x0au8,
        0xE0u8 | x != 0x0au8,
        0xF0u8 | x != 0x0au8,
        0x80u8 | x != 0x0au8,
{
}

/// The one byte that encodes a character below 128 is a line feed just
/// when the character is one.
pub proof fn lemma_single_byte(c: u32)
    by (bit_vector)
    requires
        c <= 0x7F,
    ensures
        ((c & 0x7F) as u8 == 0x0au8) == (c == 0x0au32),
{
}

/// The encoding of a character other than the line feed holds no
/// line-feed byte.
proof fn lemma_scalar_line_feed_free(c: char)
    requires
        c != '\n',
    ensures
        line_feed_free(encode_scalar(c as u32)),
{
    let s = c as u32;
    char_is_scalar(c);
    if s <= 0x7F {
        lemma_single_byte(s);
    }
    assert forall|x: u8|
        #![trigger 0x80u8 | x]
        #![trigger 0xC0u8 | x]
        #![trigger 0xE0u8 | x]
        #![trigger 0xF0u8 | x]
        0xC0u8 | x != 0x0au8 && 0xE0u8 | x != 0x0au8 && 0xF0u8 | x != 0x0au8 && 0x80u8 | x
            != 0x0au8 by {
        lemma_marked_bytes(x);
    }
}

/// The encoding of a text with one more character is the encoding of the
/// text, then that of the character.
pub proof fn lemma_encode_push(text: Seq<char>, c: char)
    ensures
        encode_utf8(text.push(c)) == encode_utf8(text) + encode_scalar(c as u32),
    decreases text.len(),
{
    let more = text.push(c);
    if text.len() == 0 {
        assert(more.drop_first() =~= Seq::<char>::empty());
        assert(encode_utf8(more.drop_first()) =~= Seq::<u8>::empty());
        assert(encode_utf8(text) =~= Seq::<u8>::empty());
        assert(encode_utf8(more) =~= encode_utf8(text) + encode_scalar(c as u32));
    } else {
        lemma_encode_push(text.drop_first(), c);
        assert(more.drop_first() =~= text.drop_first().push(c));
        assert(encode_utf8(more) =~= encode_utf8(text) + encode_scalar(c as u32));
    }
}

/// The encoding of a text without line feeds holds no line-feed byte.
pub proof fn lemma_encoded_line_feed_free(text: Seq<char>)
    requires
        !text.contains('\n'),
    ensures
        line_feed_free(encode_utf8(text)),
    decreases text.len(),
{
    if text.len() > 0 {
        let rest = text.drop_first();
        assert(text.contains(text[0]));
        assert forall|j: int| 0 <= j < rest.len() implies rest[j] != '\n' by {
            assert(text.contains(text[j + 1]));
        }
        lemma_scalar_line_feed_free(text[0]);
        lemma_encoded_line_feed_free(rest);
    }
}

/// The encoding of a text to which a line feed is added is the encoding
/// of the text with a line-feed byte added.
pub proof fn lemma_encode_line_feed(text: Seq<char>)
    ensures
        encode_utf8(text.push('\n')) == encode_utf8(text).push(LINE_FEED),
{
    lemma_encode_push(text, '\n');
    let s = '\n' as u32;
    assert((s & 0x7F) as u8 == 0x0au8) by (bit_vector)
        requires
            s == 0x0au32,
    ;
    assert(encode_scalar(s) =~= seq![LINE_FEED]);
    assert(encode_utf8(text) + seq![LINE_FEED] =~= encode_utf8(text).push(LINE_FEED));
}

/// Wraps `core::str::from_utf8`: the bytes as text where they are valid
/// UTF-8, and nothing where they are not. The text's bytes are the given
/// ones.
#[verifier::external_body]
fn utf8_text<'a>(bytes: &'a [u8]) -> (r: Option<&'a str>)
    ensures
        r is Some <==> valid_utf8(bytes@),
        r matches Some(text) ==> text.spec_bytes() == bytes@,
{
    core::str::from_utf8(bytes).ok()
}

/// The line that a text holds, as `split_line` defines it.
pub fn text_line(text: &str) -> (r: Option<String>)
    ensures
        match r {
            Some(line) => split_line(text@) == Some(line@),
            None => split_line(text@) is None,
        },
{
    let n = text.unicode_len();
    let mut i: usize = 0;
    let mut after_cr = false;
    let mut line_feed: Option<usize> = None;
    let mut chars = text.chars();
    for c in it: chars
        invariant
            n == text@.len(),
            it.seq() == text@,
            i == it.index(),
            after_cr <==> (i > 0 && text@[i - 1] == '\r'),
            forall|j: int| 0 <= j < i - 1 ==> !crlf_at(text@, j),
            match line_feed {
                Some(k) => k < i && first_index_of(text@, '\n') == k,
                None => forall|j: int| 0 <= j < i ==> text@[j] != '\n',
            },
    {
        if c == '\n' {
            if after_cr {
                proof {
                    lemma_first_crlf(text@);
                    assert(crlf_at(text@, i - 1));
                }
                let line = text.substring_char(0, i - 1);
                return Some(line.to_owned());
            }
            if line_feed.is_none() {
                proof {
                    lemma_first_index_of_is(text@, '\n', i as int);
                }
                line_feed = Some(i);
            }
        }
        after_cr = c == '\r';
        i += 1;
    }
    proof {
        lemma_first_crlf(text@);
        lemma_first_index_of(text@, '\n');
    }
    match line_feed {
        Some(k) => {
            let line = text.substring_char(0, k);
            Some(line.to_owned())
        },
        None => None,
    }
}

/// Decodes a buffer of received bytes and takes its line.
pub fn decode_line(buffer: &[u8]) -> (r: Option<String>)
    ensures
        match r {
            Some(line) => decoded_line(buffer@) == Some(line@),
            None => decoded_line(buffer@) is None,
        },
{
    match utf8_text(buffer) {
        None => None,
        Some(text) => {
            proof {
                encode_utf8_decode_utf8(text@);
            }
            text_line(text)
        },
    }
}

} // verus!
