//! The presentation side's state and its reaction to keys.
//!
//! Drawing and reading the keyboard are the caller's; what a key changes
//! and what it asks the caller to do is decided here.

use vstd::prelude::*;
use vstd::string::StringExecFns;
use crate::port::Port;
use crate::registry::same_text;
use crate::search::{first_index_of, lemma_first_index_of_is};

verus! {

/// Where the keyboard focus is.
#[derive(Clone, Copy, Debug, PartialEq, Eq, Structural)]
pub enum Mode {
    Main,
    Term,
    Listing,
    Config,
    Writing,
}

/// The key of a key event, as far as the program tells keys apart.
#[derive(Clone, Copy, Debug, PartialEq, Eq, Structural)]
pub enum KeyCode {
    Up,
    Down,
    Left,
    Right,
    End,
    Enter,
    Char(char),
    Other,
}

/// The modifiers held with a key: none, Alt alone, Control alone, or any
/// other combination.
#[derive(Clone, Copy, Debug, PartialEq, Eq, Structural)]
pub enum Modifiers {
    Plain,
    Alt,
    Control,
    Other,
}

/// A key event.
#[derive(Clone, Copy, Debug, PartialEq, Eq, Structural)]
pub struct Key {
    pub code: KeyCode,
    pub modifiers: Modifiers,
    /// Whether the key went down; releases and repeats change nothing.
    pub pressed: bool,
}

/// What the caller does after a key.
#[derive(Debug, PartialEq, Eq)]
pub enum UiAction {
    /// Nothing.
    Nothing,
    /// Leave the program.
    Quit,
    /// Move the list selection to the index.
    Select(usize),
    /// The named port is the shown one now: request cancellation, send a
    /// switch to it, and show the name as the title. The flag says whether
    /// data was kept for the port before; where none was, a switch that
    /// cannot be sent is fatal.
    Switch(String, bool),
    /// Send the text as a raw write, take the line out of the input, and
    /// request cancellation.
    SendText(String),
    /// Send a DTR command with the level.
    SendDtr(bool),
    /// Send an RTS command with the level.
    SendRts(bool),
    /// Hand the key to the text input.
    Edit,
}

/// A `UiAction` with its texts as sequences of characters.
pub enum UiActionView {
    Nothing,
    Quit,
    Select(usize),
    Switch(Seq<char>, bool),
    SendText(Seq<char>),
    SendDtr(bool),
    SendRts(bool),
    Edit,
}

impl View for UiAction {
    type V = UiActionView;

    open spec fn view(&self) -> UiActionView {
        match self {
            UiAction::Nothing => UiActionView::Nothing,
            UiAction::Quit => UiActionView::Quit,
            UiAction::Select(index) => UiActionView::Select(*index),
            UiAction::Switch(name, known) => UiActionView::Switch(name@, *known),
            UiAction::SendText(text) => UiActionView::SendText(text@),
            UiAction::SendDtr(level) => UiActionView::SendDtr(*level),
            UiAction::SendRts(level) => UiActionView::SendRts(*level),
            UiAction::Edit => UiActionView::Edit,
        }
    }
}

/// Whether the key leaves the program: Alt and `q`, pressed.
pub open spec fn is_quit(key: Key) -> bool {
    key.pressed && key.code == KeyCode::Char('q') && key.modifiers == Modifiers::Alt
}

/// Whether the key scrolls: outside the port list, the up, down and end
/// keys do, before the mode has a say.
pub open spec fn is_scroll(mode: Mode, key: Key) -> bool {
    &&& key.pressed
    &&& !is_quit(key)
    &&& mode != Mode::Listing
    &&& (key.code == KeyCode::Up || key.code == KeyCode::Down || key.code == KeyCode::End)
}

/// Whether the key is left to the mode.
pub open spec fn for_mode(mode: Mode, key: Key) -> bool {
    key.pressed && !is_quit(key) && !is_scroll(mode, key)
}

/// The scroll offset after a scrolling key: up adds one line, down takes
/// one off, both within the offset's range, and end goes to the newest.
pub open spec fn scrolled(offset: usize, code: KeyCode) -> usize {
    match code {
        KeyCode::Up => if offset == usize::MAX {
            offset
        } else {
            (offset + 1) as usize
        },
        KeyCode::Down => if offset == 0 {
            offset
        } else {
            (offset - 1) as usize
        },
        KeyCode::End => 0,
        _ => offset,
    }
}

/// The mode after a key that is left to the mode.
pub open spec fn mode_after(mode: Mode, code: KeyCode) -> Mode {
    match (mode, code) {
        (Mode::Main, KeyCode::Left) => Mode::Listing,
        (Mode::Main, KeyCode::Right) => Mode::Term,
        (Mode::Listing, KeyCode::Right) => Mode::Writing,
        (Mode::Listing, KeyCode::Left) => Mode::Term,
        (Mode::Writing, KeyCode::Left) => Mode::Listing,
        (Mode::Term, KeyCode::Left) => Mode::Listing,
        (Mode::Term, KeyCode::Right) => Mode::Writing,
        _ => mode,
    }
}

/// The list selection after the down key: the next port, and from the
/// last one the first.
pub open spec fn selection_below(selected: usize, count: usize) -> usize {
    if selected + 1 < count {
        (selected + 1) as usize
    } else {
        0
    }
}

/// The list selection after the up key: the port before, and from the
/// first one the last.
pub open spec fn selection_above(selected: usize, count: usize) -> usize {
    if selected > 0 {
        (selected - 1) as usize
    } else {
        (count - 1) as usize
    }
}

/// Whether a key in writing mode sends the line with a line feed.
pub open spec fn sends_line(key: Key) -> bool {
    key.code == KeyCode::Enter
}

/// Whether a key in writing mode sends the line with a substitute
/// character, which ends input to a modem.
pub open spec fn sends_substitute(key: Key) -> bool {
    key.code == KeyCode::Char('z') && key.modifiers == Modifiers::Control
}

/// Whether a key in writing mode toggles the DTR level.
pub open spec fn toggles_dtr(key: Key) -> bool {
    key.code == KeyCode::Char('d') && key.modifiers == Modifiers::Alt
}

/// Whether a key in writing mode toggles the RTS level.
pub open spec fn toggles_rts(key: Key) -> bool {
    key.code == KeyCode::Char('r') && key.modifiers == Modifiers::Alt
}

/// What a key asks the caller to do, given the mode, the names of the
/// listed ports, the ports for which data is kept, the signal levels kept
/// for the shown port, the list selection and the line in the text input.
pub open spec fn key_action(
    mode: Mode,
    ports: Seq<Seq<char>>,
    kept: Seq<Port>,
    dtr: bool,
    rts: bool,
    key: Key,
    selected: usize,
    line: Seq<char>,
) -> UiActionView {
    if is_quit(key) {
        UiActionView::Quit
    } else if !for_mode(mode, key) {
        UiActionView::Nothing
    } else {
        match mode {
            Mode::Listing => match key.code {
                KeyCode::Down => UiActionView::Select(selection_below(selected, ports.len() as usize)),
                KeyCode::Up => UiActionView::Select(selection_above(selected, ports.len() as usize)),
                KeyCode::Enter => UiActionView::Switch(
                    ports[selected as int],
                    port_slot(kept, ports[selected as int]) < kept.len(),
                ),
                _ => UiActionView::Nothing,
            },
            Mode::Writing => if sends_line(key) {
                UiActionView::SendText(line.push('\n'))
            } else if key.code == KeyCode::Left {
                UiActionView::Nothing
            } else if sends_substitute(key) {
                UiActionView::SendText(line.push('\u{1a}'))
            } else if toggles_dtr(key) {
                UiActionView::SendDtr(!dtr)
            } else if toggles_rts(key) {
                UiActionView::SendRts(!rts)
            } else {
                UiActionView::Edit
            },
            _ => UiActionView::Nothing,
        }
    }
}

/// The presentation side's state.
pub struct App {
    /// The names of the ports that can be chosen.
    pub ports: Vec<String>,
    pub is_active: bool,
    /// What is kept for each port that was switched to.
    pub ports_data: Vec<Port>,
    /// Which of `ports_data` is shown.
    pub active_port_idx: usize,
    pub mode: Mode,
    /// How many lines the view is scrolled back from the newest.
    pub v_scroll: usize,
}

/// The texts of names.
pub open spec fn name_texts(names: Seq<String>) -> Seq<Seq<char>> {
    names.map_values(|name: String| name@)
}

/// The names of the ports for which data is kept, in their order.
pub open spec fn kept_names(ports: Seq<Port>) -> Seq<Seq<char>> {
    ports.map_values(|port: Port| port.name@)
}

/// The index of the first port with the name among those for which data
/// is kept, or their number where none has it.
pub open spec fn port_slot(ports: Seq<Port>, name: Seq<char>) -> int {
    first_index_of(kept_names(ports), name)
}

/// Whether `after` is `before` with a line appended to the scroll buffer
/// of the first port that has the name. That port keeps its name, its
/// earlier lines and its flags; every other port is as it was; where no
/// port has the name, nothing has changed.
pub open spec fn line_stored(
    before: Seq<Port>,
    after: Seq<Port>,
    name: Seq<char>,
    line: Seq<char>,
) -> bool {
    let slot = port_slot(before, name);
    if 0 <= slot < before.len() {
        &&& after.len() == before.len()
        &&& after[slot].lines() == before[slot].lines().push(line)
        &&& after[slot].name == before[slot].name
        &&& after[slot].paused == before[slot].paused
        &&& after[slot].rts == before[slot].rts
        &&& after[slot].dtr == before[slot].dtr
        &&& forall|i: int| 0 <= i < before.len() && i != slot ==> after[i] == before[i]
    } else {
        after == before
    }
}

/// Storing a line evicts nothing, however many lines the buffer holds:
/// the buffer of the first port that has the name is one line longer, the
/// new line is its last, the lines before are those that were there, and
/// the buffers of the other ports are as they were.
pub proof fn lemma_line_stored(
    before: Seq<Port>,
    after: Seq<Port>,
    name: Seq<char>,
    line: Seq<char>,
)
    requires
        line_stored(before, after, name, line),
        0 <= port_slot(before, name) < before.len(),
    ensures
        ({
            let slot = port_slot(before, name);
            let count = before[slot].lines().len();
            &&& after[slot].lines().len() == count + 1
            &&& after[slot].lines().last() == line
            &&& after[slot].lines().take(count as int) == before[slot].lines()
            &&& forall|i: int|
                0 <= i < before.len() && i != slot ==> (#[trigger] after[i]).lines()
                    == before[i].lines()
        }),
{
    let slot = port_slot(before, name);
    let count = before[slot].lines().len();
    assert(after[slot].lines().take(count as int) =~= before[slot].lines());
}

/// Whether `after` and `shown` are what showing the named port makes of
/// `before`: the first port that has the name is shown and nothing is
/// entered; where no port has it, a port of that name, without lines, not
/// paused and with both signal lines low, is entered after the others and
/// shown.
pub open spec fn port_shown(
    before: Seq<Port>,
    after: Seq<Port>,
    shown: usize,
    name: Seq<char>,
) -> bool {
    let slot = port_slot(before, name);
    &&& shown == slot
    &&& if 0 <= slot < before.len() {
        after == before
    } else {
        &&& after.len() == before.len() + 1
        &&& forall|i: int| 0 <= i < before.len() ==> after[i] == before[i]
        &&& after[before.len() as int].name@ == name
        &&& after[before.len() as int].lines() == Seq::<Seq<char>>::empty()
        &&& !after[before.len() as int].paused
        &&& !after[before.len() as int].rts
        &&& !after[before.len() as int].dtr
    }
}

impl App {
    /// The names of the ports that can be chosen.
    pub open spec fn port_names(&self) -> Seq<Seq<char>> {
        name_texts(self.ports@)
    }

    /// Whether keys can be handled: there is a port to choose, and the
    /// shown port has its data.
    pub open spec fn ready(&self) -> bool {
        self.ports@.len() > 0 && self.active_port_idx < self.ports_data@.len()
    }

    /// The state at start, for the given names of available ports.
    pub fn new(ports: Vec<String>) -> (app: App)
        ensures
            app.ports == ports,
            !app.is_active,
            app.ports_data@.len() == 0,
            app.active_port_idx == 0,
            app.mode == Mode::Main,
            app.v_scroll == 0,
    {
        App {
            ports,
            is_active: false,
            ports_data: Vec::new(),
            active_port_idx: 0,
            mode: Mode::Main,
            v_scroll: 0,
        }
    }

    /// Turns activity on if it is off, and off if it is on.
    pub fn toggle_is_active(&mut self)
        ensures
            final(self).is_active == !old(self).is_active,
            final(self).ports == old(self).ports,
            final(self).ports_data == old(self).ports_data,
            final(self).active_port_idx == old(self).active_port_idx,
            final(self).mode == old(self).mode,
            final(self).v_scroll == old(self).v_scroll,
    {
        self.is_active = !self.is_active;
    }

    /// The name of the port at an index of the list.
    pub fn selected_port(&self, idx: usize) -> (r: Option<&String>)
        requires
            idx < self.ports@.len(),
        ensures
            r == Some(&self.ports@[idx as int]),
    {
        Some(&self.ports[idx])
    }

    /// The index of the first port with the name among those for which
    /// data is kept.
    pub fn find_port(&self, name: &str) -> (r: Option<usize>)
        ensures
            match r {
                Some(slot) => slot < self.ports_data@.len() && port_slot(self.ports_data@, name@)
                    == slot,
                None => port_slot(self.ports_data@, name@) == self.ports_data@.len(),
            },
    {
        let ghost names = kept_names(self.ports_data@);
        let n = self.ports_data.len();
        let mut i: usize = 0;
        while i < n
            invariant
                n == self.ports_data@.len(),
                names == kept_names(self.ports_data@),
                i <= n,
                forall|j: int| 0 <= j < i ==> names[j] != name@,
            decreases n - i,
        {
            if same_text(self.ports_data[i].name.as_str(), name) {
                proof {
                    lemma_first_index_of_is(names, name@, i as int);
                }
                return Some(i);
            }
            i += 1;
        }
        proof {
            lemma_first_index_of_is(names, name@, n as int);
        }
        None
    }

    /// Stores a line that arrived under a port's name: it is appended to
    /// the scroll buffer of that port, and nothing is evicted. A line under
    /// a name for which no data is kept is not stored.
    pub fn add_data_with_name(&mut self, name: String, data: String)
        ensures
            line_stored(old(self).ports_data@, final(self).ports_data@, name@, data@),
            final(self).ports == old(self).ports,
            final(self).is_active == old(self).is_active,
            final(self).active_port_idx == old(self).active_port_idx,
            final(self).mode == old(self).mode,
            final(self).v_scroll == old(self).v_scroll,
    {
        match self.find_port(name.as_str()) {
            Some(slot) => {
                self.ports_data[slot].push_line(data);
            },
            None => {},
        }
    }

    /// Shows the named port: the port of that name for which data is kept
    /// becomes the shown one, and where there is none yet, one is entered
    /// first.
    pub fn show_port(&mut self, name: String)
        ensures
            port_shown(
                old(self).ports_data@,
                final(self).ports_data@,
                final(self).active_port_idx,
                name@,
            ),
            final(self).ports == old(self).ports,
            final(self).is_active == old(self).is_active,
            final(self).mode == old(self).mode,
            final(self).v_scroll == old(self).v_scroll,
    {
        match self.find_port(name.as_str()) {
            Some(slot) => {
                self.active_port_idx = slot;
            },
            None => {
                let slot = self.ports_data.len();
                self.ports_data.push(Port::new(name, false));
                self.active_port_idx = slot;
            },
        }
    }

    /// Whether data is kept for the named port.
    pub fn is_port_open(&self, name: &str) -> (r: bool)
        ensures
            r == (port_slot(self.ports_data@, name@) < self.ports_data@.len()),
    {
        self.find_port(name).is_some()
    }

    /// Takes a key event: changes mode, scroll offset, the signal levels
    /// kept for the shown port and, on a switch, the shown port as the key
    /// says, and returns what is left for the caller to do. `selected` is
    /// the list selection and `line` the line in the text input.
    pub fn on_key(&mut self, key: Key, selected: usize, line: &str) -> (action: UiAction)
        requires
            old(self).ready(),
            selected < old(self).ports@.len(),
        ensures
            action@ == key_action(
                old(self).mode,
                old(self).port_names(),
                old(self).ports_data@,
                old(self).ports_data@[old(self).active_port_idx as int].dtr,
                old(self).ports_data@[old(self).active_port_idx as int].rts,
                key,
                selected,
                line@,
            ),
            final(self).mode == if for_mode(old(self).mode, key) {
                mode_after(old(self).mode, key.code)
            } else {
                old(self).mode
            },
            final(self).v_scroll == if is_scroll(old(self).mode, key) {
                scrolled(old(self).v_scroll, key.code)
            } else {
                old(self).v_scroll
            },
            final(self).ports == old(self).ports,
            final(self).is_active == old(self).is_active,
            action matches UiAction::Switch(name, _) ==> port_shown(
                old(self).ports_data@,
                final(self).ports_data@,
                final(self).active_port_idx,
                name@,
            ),
            !(action is Switch) ==> final(self).active_port_idx == old(self).active_port_idx,
            !(action is Switch) ==> final(self).ports_data@ == old(self).ports_data@.update(
                old(self).active_port_idx as int,
                Port {
                    dtr: old(self).ports_data@[old(self).active_port_idx as int].dtr
                        != (action is SendDtr),
                    rts: old(self).ports_data@[old(self).active_port_idx as int].rts
                        != (action is SendRts),
                    ..old(self).ports_data@[old(self).active_port_idx as int]
                },
            ),
    {
        let ghost shown = old(self).active_port_idx as int;
        assert(old(self).ports_data@ =~= old(self).ports_data@.update(
            shown,
            old(self).ports_data@[shown],
        ));
        if !key.pressed {
            return UiAction::Nothing;
        }
        let code = key.code;
        if code == KeyCode::Char('q') && key.modifiers == Modifiers::Alt {
            return UiAction::Quit;
        }
        if self.mode != Mode::Listing {
            match code {
                KeyCode::Up => {
                    self.v_scroll = self.v_scroll.saturating_add(1);
                    return UiAction::Nothing;
                },
                KeyCode::Down => {
                    self.v_scroll = self.v_scroll.saturating_sub(1);
                    return UiAction::Nothing;
                },
                KeyCode::End => {
                    self.v_scroll = 0;
                    return UiAction::Nothing;
                },
                _ => {},
            }
        }
        match self.mode {
            Mode::Main => {
                match code {
                    KeyCode::Left => {
                        self.mode = Mode::Listing;
                    },
                    KeyCode::Right => {
                        self.mode = Mode::Term;
                    },
                    _ => {},
                }
                UiAction::Nothing
            },
            Mode::Term => {
                match code {
                    KeyCode::Left => {
                        self.mode = Mode::Listing;
                    },
                    KeyCode::Right => {
                        self.mode = Mode::Writing;
                    },
                    _ => {},
                }
                UiAction::Nothing
            },
            Mode::Config => UiAction::Nothing,
            Mode::Listing => {
                let count = self.ports.len();
                match code {
                    KeyCode::Down => {
                        if selected < count - 1 {
                            UiAction::Select(selected + 1)
                        } else {
                            UiAction::Select(0)
                        }
                    },
                    KeyCode::Up => {
                        if selected > 0 {
                            UiAction::Select(selected - 1)
                        } else {
                            UiAction::Select(count - 1)
                        }
                    },
                    KeyCode::Right => {
                        self.mode = Mode::Writing;
                        UiAction::Nothing
                    },
                    KeyCode::Left => {
                        self.mode = Mode::Term;
                        UiAction::Nothing
                    },
                    KeyCode::Enter => {
                        let name = self.ports[selected].clone();
                        let known = self.is_port_open(name.as_str());
                        self.show_port(name.clone());
                        UiAction::Switch(name, known)
                    },
                    _ => UiAction::Nothing,
                }
            },
            Mode::Writing => {
                let shown = self.active_port_idx;
                if code == KeyCode::Enter {
                    let mut text = String::from_str(line);
                    text.append("\n");
                    proof {
                        reveal_strlit("\n");
                        assert(text@ =~= line@.push('\n'));
                    }
                    UiAction::SendText(text)
                } else if code == KeyCode::Left {
                    self.mode = Mode::Listing;
                    UiAction::Nothing
                } else if code == KeyCode::Char('z') && key.modifiers == Modifiers::Control {
                    let mut text = String::from_str(line);
                    text.append("\u{1a}");
                    proof {
                        reveal_strlit("\u{1a}");
                        assert(text@ =~= line@.push('\u{1a}'));
                    }
                    UiAction::SendText(text)
                } else if code == KeyCode::Char('d') && key.modifiers == Modifiers::Alt {
                    let level = !self.ports_data[shown].dtr;
                    self.ports_data[shown].dtr = level;
                    UiAction::SendDtr(level)
                } else if code == KeyCode::Char('r') && key.modifiers == Modifiers::Alt {
                    let level = !self.ports_data[shown].rts;
                    self.ports_data[shown].rts = level;
                    UiAction::SendRts(level)
                } else {
                    UiAction::Edit
                }
            },
        }
    }
}

} // verus!
