//! The serial worker's decisions.
//!
//! The worker owns the connection registry and knows which device is the
//! active one. It does no input or output itself: the caller waits for
//! commands, opens devices, reads and writes, and the worker says, as a
//! list of effects to perform in order, what each event leads to.

use vstd::prelude::*;
use crate::command::{CmdType, CmdTypeView, PortCommand, PortCommandView};
use crate::flow::FlowStep;
use crate::registry::{distinct_names, slot_of_name, ConnectionRegistry};
use crate::scripts::{dtr_toggle_flow, dtr_toggle_steps, rts_toggle_flow, rts_toggle_steps};

verus! {

/// The baud rate at which every device is opened.
pub const BAUD_RATE: u32 = 115_200;

/// The read timeout with which every device is opened, in milliseconds.
pub const READ_TIMEOUT_MS: u64 = 5;

/// How long an active worker waits for a command, in milliseconds.
pub const COMMAND_WAIT_MS: u64 = 5;

/// Why a device could not be opened.
#[derive(Clone, Copy, Debug, PartialEq, Eq, Structural)]
pub enum OpenError {
    /// The device is not there, or another process has it.
    NoDevice,
    /// The name or a parameter was refused.
    InvalidInput,
    /// The system reported an input or output error, such as missing
    /// permission.
    Io,
    /// Anything else.
    Unknown,
}

/// One thing for the worker's caller to do.
#[derive(Debug, PartialEq, Eq)]
pub enum Effect {
    /// Open the named device at `BAUD_RATE` with `READ_TIMEOUT_MS`, then
    /// report to `opened` or `open_failed`.
    Open(String),
    /// Send the device name and whether it is open now on result-out.
    Result(String, bool),
    /// Send the device name and a line on data-out.
    Data(String, String),
    /// Write the text's bytes to the connection in the slot.
    Write(usize, String),
    /// Perform the step on the connection in the slot.
    Flow(usize, FlowStep),
    /// Stop the worker: the named device could not be opened.
    Abort(String, OpenError),
}

/// An `Effect` with its texts as sequences of characters.
pub enum EffectView {
    Open(Seq<char>),
    Result(Seq<char>, bool),
    Data(Seq<char>, Seq<char>),
    Write(nat, Seq<char>),
    Flow(nat, FlowStep),
    Abort(Seq<char>, OpenError),
}

impl View for Effect {
    type V = EffectView;

    open spec fn view(&self) -> EffectView {
        match self {
            Effect::Open(name) => EffectView::Open(name@),
            Effect::Result(name, success) => EffectView::Result(name@, *success),
            Effect::Data(name, line) => EffectView::Data(name@, line@),
            Effect::Write(slot, text) => EffectView::Write(*slot as nat, text@),
            Effect::Flow(slot, step) => EffectView::Flow(*slot as nat, *step),
            Effect::Abort(name, error) => EffectView::Abort(name@, *error),
        }
    }
}

/// The views of a list of effects.
pub open spec fn effect_views(effects: Seq<Effect>) -> Seq<EffectView> {
    effects.map_values(|e: Effect| e@)
}

/// The steps of a script, each on the connection in `slot`.
pub open spec fn flow_effects(slot: nat, steps: Seq<FlowStep>) -> Seq<EffectView> {
    steps.map_values(|step: FlowStep| EffectView::Flow(slot, step))
}

/// What a failed open leads to: the failure goes to result-out, then the
/// worker stops.
pub open spec fn open_failure_effects(name: Seq<char>, error: OpenError) -> Seq<EffectView> {
    seq![EffectView::Result(name, false), EffectView::Abort(name, error)]
}

/// What the caller of the worker does next.
#[derive(Clone, Copy, Debug, PartialEq, Eq, Structural)]
pub enum Request {
    /// Wait for a command, at most for the given number of milliseconds
    /// or, where none is given, without limit. Hand a command to
    /// `on_command`; report to `no_command` that none came.
    AwaitCommand(Option<u64>),
    /// Make one read call on the connection in the slot and hand what it
    /// yields to `on_read`.
    ReadLine(usize),
}

/// What the worker knows: the open devices by slot, the active slot, and
/// where it is in its round of one wait for a command and one read.
pub struct WorkerState<C> {
    pub names: Seq<Seq<char>>,
    pub connections: Seq<C>,
    pub active: Option<nat>,
    /// Whether the wait of this round is over and its read is due.
    pub reading: bool,
}

impl<C> WorkerState<C> {
    /// Every name has its connection, no name occurs twice, and the
    /// active slot, if there is one, is taken.
    pub open spec fn wf(self) -> bool {
        &&& self.names.len() == self.connections.len()
        &&& distinct_names(self.names)
        &&& self.active matches Some(slot) ==> slot < self.names.len()
    }

    /// The state before any device was opened.
    pub open spec fn initial() -> Self {
        WorkerState {
            names: Seq::empty(),
            connections: Seq::empty(),
            active: None,
            reading: false,
        }
    }

    /// Whether a read is what comes next: the wait of this round is over
    /// and there is an active device. Before the first device is open
    /// nothing is read.
    pub open spec fn reads_next(self) -> bool {
        self.reading && self.active is Some
    }

    /// How long a wait for a command lasts, in milliseconds: without
    /// limit before the first device is open, `COMMAND_WAIT_MS` after.
    pub open spec fn command_wait(self) -> Option<u64> {
        if self.active is None {
            None
        } else {
            Some(COMMAND_WAIT_MS)
        }
    }

    /// The state after a command: the read of this round is due, and a
    /// switch to a device that is open already makes it the active one.
    /// Nothing else changes.
    pub open spec fn after_command(self, command: PortCommandView) -> Self {
        match command {
            PortCommandView::ChangePort(name) => match slot_of_name(self.names, name) {
                Some(slot) => WorkerState { active: Some(slot as nat), reading: true, ..self },
                None => WorkerState { reading: true, ..self },
            },
            PortCommandView::Write(_) => WorkerState { reading: true, ..self },
        }
    }

    /// The state after a wait in which no command came: the read of this
    /// round is due.
    pub open spec fn after_no_command(self) -> Self {
        WorkerState { reading: true, ..self }
    }

    /// The state after a read: the next round starts.
    pub open spec fn after_read(self) -> Self {
        WorkerState { reading: false, ..self }
    }

    /// What a command leads to.
    ///
    /// A switch to an open device reports success; a switch to another
    /// asks for it to be opened. Raw text is echoed on data-out under the
    /// active device's name, then written to it. A DTR or RTS command runs
    /// its predefined script, whatever level it carries. Without an active
    /// device a write command leads to nothing.
    pub open spec fn command_effects(self, command: PortCommandView) -> Seq<EffectView> {
        match command {
            PortCommandView::ChangePort(name) => match slot_of_name(self.names, name) {
                Some(_) => seq![EffectView::Result(name, true)],
                None => seq![EffectView::Open(name)],
            },
            PortCommandView::Write(what) => match self.active {
                None => Seq::empty(),
                Some(slot) => match what {
                    CmdTypeView::Raw(text) => seq![
                        EffectView::Data(self.names[slot as int], text),
                        EffectView::Write(slot, text),
                    ],
                    CmdTypeView::Dtr(_) => flow_effects(slot, dtr_toggle_flow()),
                    CmdTypeView::Rts(_) => flow_effects(slot, rts_toggle_flow()),
                },
            },
        }
    }

    /// The state after a device was opened: it has the next slot and is
    /// the active one.
    pub open spec fn after_opened(self, name: Seq<char>, connection: C) -> Self {
        WorkerState {
            names: self.names.push(name),
            connections: self.connections.push(connection),
            active: Some(self.names.len()),
            reading: self.reading,
        }
    }

    /// What a read leads to: a line goes to data-out under the active
    /// device's name.
    pub open spec fn read_effects(self, line: Option<Seq<char>>) -> Seq<EffectView> {
        match (self.active, line) {
            (Some(slot), Some(line)) => seq![EffectView::Data(self.names[slot as int], line)],
            _ => Seq::empty(),
        }
    }
}

/// The serial worker: the registry, the active slot, and whether the
/// read of the current round is due.
pub struct SerialWorker<C> {
    registry: ConnectionRegistry<C>,
    active: Option<usize>,
    reading: bool,
}

impl<C> View for SerialWorker<C> {
    type V = WorkerState<C>;

    closed spec fn view(&self) -> WorkerState<C> {
        WorkerState {
            names: self.registry.names(),
            connections: self.registry.connections(),
            active: match self.active {
                Some(slot) => Some(slot as nat),
                None => None,
            },
            reading: self.reading,
        }
    }
}

impl<C> SerialWorker<C> {
    /// The worker's invariant: that of its state.
    pub open spec fn wf(&self) -> bool {
        self@.wf()
    }

    /// A worker that has opened no device yet.
    pub fn new() -> (r: Self)
        ensures
            r.wf(),
            r@ == WorkerState::<C>::initial(),
    {
        SerialWorker { registry: ConnectionRegistry::new(), active: None, reading: false }
    }

    /// The active slot: the connection to read from and write to.
    pub fn active(&self) -> (r: Option<usize>)
        ensures
            match r {
                Some(slot) => self@.active == Some(slot as nat),
                None => self@.active is None,
            },
    {
        self.active
    }

    /// The number of open devices: the slots below it are taken.
    pub fn open_count(&self) -> (n: usize)
        requires
            self.wf(),
        ensures
            n == self@.names.len(),
    {
        self.registry.len()
    }

    /// What the caller does next. A round is one wait for a command,
    /// then one read from the active device; a command is handled before
    /// the read of its round, so that a switch takes effect before the next
    /// line is read.
    pub fn request(&self) -> (r: Request)
        ensures
            match r {
                Request::ReadLine(slot) => self@.reads_next() && self@.active == Some(slot as nat),
                Request::AwaitCommand(wait) => !self@.reads_next() && wait
                    == self@.command_wait(),
            },
    {
        match self.active {
            None => Request::AwaitCommand(None),
            Some(slot) => if self.reading {
                Request::ReadLine(slot)
            } else {
                Request::AwaitCommand(Some(COMMAND_WAIT_MS))
            },
        }
    }

    /// Takes note that no command came within the wait.
    pub fn no_command(&mut self)
        ensures
            final(self)@ == old(self)@.after_no_command(),
    {
        self.reading = true;
    }

    /// The slot of the named device, if it is open.
    pub fn slot_of(&self, name: &str) -> (r: Option<usize>)
        requires
            self.wf(),
        ensures
            match r {
                Some(slot) => slot_of_name(self@.names, name@) == Some(slot as int),
                None => slot_of_name(self@.names, name@) is None,
            },
    {
        self.registry.slot_of(name)
    }

    /// The connection in a slot, to perform an effect on.
    pub fn connection_mut(&mut self, slot: usize) -> (r: &mut C)
        requires
            old(self).wf(),
            slot < old(self)@.names.len(),
        ensures
            *r == old(self)@.connections[slot as int],
            final(self)@ == (WorkerState {
                connections: old(self)@.connections.update(slot as int, *final(r)),
                ..old(self)@
            }),
    {
        self.registry.connection_mut(slot)
    }

    /// Takes a command and says what to do for it.
    pub fn on_command(&mut self, command: PortCommand) -> (effects: Vec<Effect>)
        requires
            old(self).wf(),
        ensures
            final(self).wf(),
            final(self)@ == old(self)@.after_command(command@),
            effect_views(effects@) == old(self)@.command_effects(command@),
    {
        let mut effects: Vec<Effect> = Vec::new();
        self.reading = true;
        match command {
            PortCommand::ChangePort(name) => {
                match self.registry.slot_of(name.as_str()) {
                    Some(slot) => {
                        self.active = Some(slot);
                        effects.push(Effect::Result(name, true));
                    },
                    None => {
                        effects.push(Effect::Open(name));
                    },
                }
            },
            PortCommand::Write(what) => {
                if let Some(slot) = self.active {
                    match what {
                        CmdType::Raw(text) => {
                            let name = self.registry.name(slot).clone();
                            effects.push(Effect::Data(name, text.clone()));
                            effects.push(Effect::Write(slot, text));
                        },
                        CmdType::Dtr(_) => {
                            effects = flow_on(slot, dtr_toggle_steps());
                        },
                        CmdType::Rts(_) => {
                            effects = flow_on(slot, rts_toggle_steps());
                        },
                    }
                }
            },
        }
        assert(effect_views(effects@) =~= old(self)@.command_effects(command@));
        effects
    }

    /// Takes a device that was opened for an `Open` effect: it becomes the
    /// active one, and success is reported.
    pub fn opened(&mut self, name: String, connection: C) -> (effects: Vec<Effect>)
        requires
            old(self).wf(),
            !old(self)@.names.contains(name@),
        ensures
            final(self).wf(),
            final(self)@ == old(self)@.after_opened(name@, connection),
            effect_views(effects@) == seq![EffectView::Result(name@, true)],
    {
        let mut effects: Vec<Effect> = Vec::new();
        effects.push(Effect::Result(name.clone(), true));
        match self.registry.insert(name, connection) {
            Ok(slot) => {
                self.active = Some(slot);
            },
            Err(_) => {},
        }
        assert(effect_views(effects@) =~= seq![EffectView::Result(name@, true)]);
        effects
    }

    /// Takes the failure of an `Open` effect: the failure is reported on
    /// result-out, and the worker stops. Nothing is entered in the registry
    /// and the active device stays.
    pub fn open_failed(&self, name: String, error: OpenError) -> (effects: Vec<Effect>)
        ensures
            effect_views(effects@) == open_failure_effects(name@, error),
    {
        let mut effects: Vec<Effect> = Vec::new();
        effects.push(Effect::Result(name.clone(), false));
        effects.push(Effect::Abort(name, error));
        assert(effect_views(effects@) =~= open_failure_effects(name@, error));
        effects
    }

    /// Takes what a read call on the active connection yielded, which
    /// ends the round.
    pub fn on_read(&mut self, line: Option<String>) -> (effects: Vec<Effect>)
        requires
            old(self).wf(),
        ensures
            final(self)@ == old(self)@.after_read(),
            effect_views(effects@) == old(self)@.read_effects(
                match line {
                    Some(text) => Some(text@),
                    None => None,
                },
            ),
    {
        let mut effects: Vec<Effect> = Vec::new();
        self.reading = false;
        if let Some(slot) = self.active {
            if let Some(text) = line {
                let name = self.registry.name(slot).clone();
                effects.push(Effect::Data(name, text));
            }
        }
        assert(effect_views(effects@) =~= old(self)@.read_effects(
            match line {
                Some(text) => Some(text@),
                None => None,
            },
        ));
        effects
    }
}

/// The steps of a script as effects on the connection in `slot`.
fn flow_on(slot: usize, steps: Vec<FlowStep>) -> (effects: Vec<Effect>)
    ensures
        effect_views(effects@) == flow_effects(slot as nat, steps@),
{
    let mut effects: Vec<Effect> = Vec::new();
    let n = steps.len();
    let mut i: usize = 0;
    while i < n
        invariant
            n == steps@.len(),
            i <= n,
            effects@.len() == i,
            forall|j: int| 0 <= j < i ==> (#[trigger] effects@[j])@ == EffectView::Flow(
                slot as nat,
                steps@[j],
            ),
        decreases n - i,
    {
        effects.push(Effect::Flow(slot, steps[i]));
        i += 1;
    }
    assert(effect_views(effects@) =~= flow_effects(slot as nat, steps@));
    effects
}

} // verus!
