//! What the presentation side keeps for a port: its name, its signal
//! levels and the lines received from it.

use std::collections::VecDeque;
use vstd::prelude::*;

verus! {

/// The number of lines for which a scroll buffer is allocated at first.
/// It is no limit: a buffer grows beyond it.
pub const SCROLL_CAPACITY: usize = 1000;

/// A port as the presentation side sees it.
pub struct Port {
    /// The device name.
    pub name: String,
    /// Whether display of the port is paused.
    pub paused: bool,
    /// The lines received, oldest first.
    pub scroll_buffer: VecDeque<String>,
    /// The level last requested for the request-to-send line.
    pub rts: bool,
    /// The level last requested for the data-terminal-ready line.
    pub dtr: bool,
}

/// The texts of stored lines.
pub open spec fn line_texts(lines: Seq<String>) -> Seq<Seq<char>> {
    lines.map_values(|line: String| line@)
}

impl Port {
    /// The lines of the scroll buffer as texts, oldest first.
    pub open spec fn lines(&self) -> Seq<Seq<char>> {
        line_texts(self.scroll_buffer@)
    }

    /// A port without lines, with both signal lines low.
    pub fn new(name: String, paused: bool) -> (port: Port)
        ensures
            port.name == name,
            port.paused == paused,
            port.lines() == Seq::<Seq<char>>::empty(),
            !port.rts,
            !port.dtr,
    {
        let port = Port {
            name,
            paused,
            scroll_buffer: VecDeque::with_capacity(SCROLL_CAPACITY),
            rts: false,
            dtr: false,
        };
        assert(port.lines() =~= Seq::<Seq<char>>::empty());
        port
    }

    /// Appends a line. Nothing is evicted, whatever the buffer holds.
    pub fn push_line(&mut self, line: String)
        ensures
            final(self).lines() == old(self).lines().push(line@),
            final(self).name == old(self).name,
            final(self).paused == old(self).paused,
            final(self).rts == old(self).rts,
            final(self).dtr == old(self).dtr,
    {
        self.scroll_buffer.push_back(line);
        assert(self.lines() =~= old(self).lines().push(line@));
    }

    /// The number of lines in the scroll buffer.
    pub fn line_count(&self) -> (n: usize)
        ensures
            n == self.lines().len(),
    {
        self.scroll_buffer.len()
    }
}

/// The lines of a buffer after more lines were appended one by one.
pub open spec fn after_lines(lines: Seq<Seq<char>>, more: Seq<Seq<char>>) -> Seq<Seq<char>>
    decreases more.len(),
{
    if more.len() == 0 {
        lines
    } else {
        after_lines(lines, more.drop_last()).push(more.last())
    }
}

/// Growth is not capped: after any number of lines were appended the
/// buffer holds what it held and every one of them, in order.
pub proof fn lemma_nothing_evicted(lines: Seq<Seq<char>>, more: Seq<Seq<char>>)
    ensures
        after_lines(lines, more) == lines + more,
        after_lines(lines, more).len() == lines.len() + more.len(),
    decreases more.len(),
{
    if more.len() == 0 {
        assert(lines + more =~= lines);
    } else {
        lemma_nothing_evicted(lines, more.drop_last());
        assert((lines + more.drop_last()).push(more.last()) =~= lines + more);
    }
}

} // verus!
