//! What holds of the worker whatever it is asked: entries stay, a device
//! is opened once, and a switch back finds the connection that was left.

use vstd::prelude::*;
use crate::command::PortCommandView;
use crate::registry::{distinct_names, slot_of_name};
use crate::worker::{EffectView, WorkerState};

verus! {

/// What can change a worker's state: a command, a wait without one, a
/// device opened for it, or a read.
pub enum WorkerEvent<C> {
    Command(PortCommandView),
    NoCommand,
    Opened(Seq<char>, C),
    Read,
}

/// The state after an event. A device is entered only under a name that
/// is not taken.
pub open spec fn after_event<C>(state: WorkerState<C>, event: WorkerEvent<C>) -> WorkerState<C> {
    match event {
        WorkerEvent::Command(command) => state.after_command(command),
        WorkerEvent::NoCommand => state.after_no_command(),
        WorkerEvent::Opened(name, connection) => if state.names.contains(name) {
            state
        } else {
            state.after_opened(name, connection)
        },
        WorkerEvent::Read => state.after_read(),
    }
}

/// The state after a sequence of events.
pub open spec fn after_events<C>(state: WorkerState<C>, events: Seq<WorkerEvent<C>>) -> WorkerState<
    C,
>
    decreases events.len(),
{
    if events.len() == 0 {
        state
    } else {
        after_event(after_events(state, events.drop_last()), events.last())
    }
}

/// Among distinct names, the slot of the name at an index is that index.
pub proof fn lemma_slot_of_name(names: Seq<Seq<char>>, slot: int)
    requires
        distinct_names(names),
        0 <= slot < names.len(),
    ensures
        slot_of_name(names, names[slot]) == Some(slot),
{
    assert(names.contains(names[slot]));
    let found = names.index_of(names[slot]);
    assert(0 <= found < names.len() && names[found] == names[slot]);
}

/// No event removes or replaces an entry: after it every device has the
/// slot, the name and the connection that it had, and the state is still
/// well formed.
pub proof fn lemma_event_keeps_entries<C>(state: WorkerState<C>, event: WorkerEvent<C>)
    requires
        state.wf(),
    ensures
        after_event(state, event).wf(),
        state.names.is_prefix_of(after_event(state, event).names),
        state.connections.is_prefix_of(after_event(state, event).connections),
{
    let after = after_event(state, event);
    match event {
        WorkerEvent::Command(command) => {
            match command {
                PortCommandView::ChangePort(name) => {
                    if state.names.contains(name) {
                        let found = state.names.index_of(name);
                        assert(0 <= found < state.names.len());
                    }
                },
                PortCommandView::Write(_) => {},
            }
        },
        _ => {},
    }
}

/// The same of any sequence of events.
pub proof fn lemma_events_keep_entries<C>(state: WorkerState<C>, events: Seq<WorkerEvent<C>>)
    requires
        state.wf(),
    ensures
        after_events(state, events).wf(),
        state.names.is_prefix_of(after_events(state, events).names),
        state.connections.is_prefix_of(after_events(state, events).connections),
    decreases events.len(),
{
    if events.len() > 0 {
        lemma_events_keep_entries(state, events.drop_last());
        lemma_event_keeps_entries(after_events(state, events.drop_last()), events.last());
    }
}

/// Opening is idempotent. A switch to a device that is not open asks for
/// one open; once the device is entered, a second switch to it asks for
/// none, reports success, and leaves the registry and the active slot as
/// they are: the slot and the connection that the first open gave.
pub proof fn lemma_open_once<C>(state: WorkerState<C>, name: Seq<char>, connection: C)
    requires
        state.wf(),
        !state.names.contains(name),
    ensures
        ({
            let switch = PortCommandView::ChangePort(name);
            let opened = state.after_command(switch).after_opened(name, connection);
            &&& state.command_effects(switch) == seq![EffectView::Open(name)]
            &&& state.after_command(switch) == (WorkerState { reading: true, ..state })
            &&& opened.wf()
            &&& opened.command_effects(switch) == seq![EffectView::Result(name, true)]
            &&& opened.after_command(switch) == opened
            &&& opened.active == Some(state.names.len())
            &&& opened.names[state.names.len() as int] == name
            &&& opened.connections[state.names.len() as int] == connection
        }),
{
    let opened = state.after_command(PortCommandView::ChangePort(name)).after_opened(
        name,
        connection,
    );
    lemma_slot_of_name(opened.names, state.names.len() as int);
}

/// A switch to a device that is open opens nothing, reports success and
/// makes its slot the active one; a second one changes nothing more.
pub proof fn lemma_switch_reuses<C>(state: WorkerState<C>, slot: int)
    requires
        state.wf(),
        0 <= slot < state.names.len(),
    ensures
        ({
            let switch = PortCommandView::ChangePort(state.names[slot]);
            let after = state.after_command(switch);
            &&& state.command_effects(switch) == seq![EffectView::Result(state.names[slot], true)]
            &&& after.names == state.names
            &&& after.connections == state.connections
            &&& after.active == Some(slot as nat)
            &&& after.after_command(switch) == after
        }),
{
    lemma_slot_of_name(state.names, slot);
}

/// Switching preserves the other connections. Whatever happens after a
/// device got its slot, a switch back to it opens nothing: it finds the
/// same slot with the same connection, a read from it is what comes next,
/// and lines read from then on go out under its name.
pub proof fn lemma_switch_back<C>(
    state: WorkerState<C>,
    slot: int,
    events: Seq<WorkerEvent<C>>,
    line: Seq<char>,
)
    requires
        state.wf(),
        0 <= slot < state.names.len(),
    ensures
        ({
            let name = state.names[slot];
            let later = after_events(state, events);
            let switch = PortCommandView::ChangePort(name);
            let back = later.after_command(switch);
            &&& later.command_effects(switch) == seq![EffectView::Result(name, true)]
            &&& back.active == Some(slot as nat)
            &&& back.names == later.names
            &&& back.connections == later.connections
            &&& back.connections[slot] == state.connections[slot]
            &&& back.reads_next()
            &&& back.read_effects(Some(line)) == seq![EffectView::Data(name, line)]
        }),
{
    lemma_events_keep_entries(state, events);
    let later = after_events(state, events);
    assert(later.names[slot] == state.names[slot]);
    assert(later.connections[slot] == state.connections[slot]);
    lemma_switch_reuses(later, slot);
}

} // verus!
