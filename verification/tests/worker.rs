use determ::command::{CmdType, PortCommand};
use determ::flow::FlowStep;
use determ::registry::{same_text, ConnectionRegistry};
use determ::worker::{
    Effect, OpenError, Request, SerialWorker, BAUD_RATE, COMMAND_WAIT_MS, READ_TIMEOUT_MS,
};

/// A stand-in for a device handle: which open made it.
#[derive(Debug, PartialEq, Eq)]
struct Handle(u32);

/// Performs the `Open` effects of a plan on a fake system that counts opens.
fn perform(worker: &mut SerialWorker<Handle>, plan: Vec<Effect>, opens: &mut u32) -> Vec<Effect> {
    let mut done = Vec::new();
    for effect in plan {
        match effect {
            Effect::Open(name) => {
                assert_eq!(worker.slot_of(&name), None);
                *opens += 1;
                done.extend(worker.opened(name, Handle(*opens)));
            }
            other => done.push(other),
        }
    }
    done
}

fn switch(worker: &mut SerialWorker<Handle>, name: &str, opens: &mut u32) -> Vec<Effect> {
    let plan = worker.on_command(PortCommand::ChangePort(name.to_string()));
    perform(worker, plan, opens)
}

#[test]
fn device_parameters_are_fixed() {
    assert_eq!(BAUD_RATE, 115_200);
    assert_eq!(READ_TIMEOUT_MS, 5);
    assert_eq!(COMMAND_WAIT_MS, 5);
}

#[test]
fn same_text_compares_characters() {
    assert!(same_text("/dev/ttyUSB0", "/dev/ttyUSB0"));
    assert!(!same_text("/dev/ttyUSB0", "/dev/ttyUSB1"));
    assert!(!same_text("/dev/ttyUSB0", "/dev/ttyUSB"));
    assert!(same_text("", ""));
    assert!(same_text("pr\u{fc}f", "pr\u{fc}f"));
    assert!(!same_text("pr\u{fc}f", "pruf"));
}

#[test]
fn registry_gives_slots_in_order_of_opening() {
    let mut registry: ConnectionRegistry<Handle> = ConnectionRegistry::new();
    assert_eq!(registry.len(), 0);
    assert_eq!(registry.slot_of("a"), None);
    assert_eq!(registry.insert("a".to_string(), Handle(1)), Ok(0));
    assert_eq!(registry.insert("b".to_string(), Handle(2)), Ok(1));
    assert_eq!(registry.len(), 2);
    assert_eq!(registry.slot_of("a"), Some(0));
    assert_eq!(registry.slot_of("b"), Some(1));
    assert_eq!(registry.slot_of("c"), None);
    assert_eq!(registry.name(1), "b");
    assert_eq!(registry.connection(0), &Handle(1));
}

#[test]
fn registry_hands_back_a_connection_for_a_taken_name() {
    let mut registry: ConnectionRegistry<Handle> = ConnectionRegistry::new();
    assert_eq!(registry.insert("a".to_string(), Handle(1)), Ok(0));
    assert_eq!(registry.insert("a".to_string(), Handle(2)), Err(Handle(2)));
    assert_eq!(registry.len(), 1);
    assert_eq!(registry.connection(0), &Handle(1));
}

#[test]
fn registry_connection_can_be_worked_on() {
    let mut registry: ConnectionRegistry<Handle> = ConnectionRegistry::new();
    assert_eq!(registry.insert("a".to_string(), Handle(1)), Ok(0));
    assert_eq!(registry.insert("b".to_string(), Handle(2)), Ok(1));
    registry.connection_mut(1).0 = 20;
    assert_eq!(registry.connection(0), &Handle(1));
    assert_eq!(registry.connection(1), &Handle(20));
    assert_eq!(registry.slot_of("b"), Some(1));
}

#[test]
fn new_worker_waits_without_limit_and_reads_nothing() {
    let mut worker: SerialWorker<Handle> = SerialWorker::new();
    assert_eq!(worker.active(), None);
    assert_eq!(worker.request(), Request::AwaitCommand(None));
    worker.no_command();
    assert_eq!(worker.request(), Request::AwaitCommand(None));
    assert_eq!(worker.on_command(PortCommand::Write(CmdType::Dtr(true))), vec![]);
    assert_eq!(worker.request(), Request::AwaitCommand(None));
    assert_eq!(worker.on_read(Some("stray".to_string())), vec![]);
    assert_eq!(worker.request(), Request::AwaitCommand(None));
}

#[test]
fn a_round_is_one_wait_then_one_read() {
    let mut worker: SerialWorker<Handle> = SerialWorker::new();
    let mut opens = 0;
    switch(&mut worker, "A", &mut opens);
    assert_eq!(worker.request(), Request::ReadLine(0));
    assert_eq!(worker.on_read(None), vec![]);
    assert_eq!(worker.request(), Request::AwaitCommand(Some(5)));
    worker.no_command();
    assert_eq!(worker.request(), Request::ReadLine(0));
    assert_eq!(
        worker.on_read(Some("L".to_string())),
        vec![Effect::Data("A".to_string(), "L".to_string())]
    );
    assert_eq!(worker.request(), Request::AwaitCommand(Some(5)));
    worker.on_command(PortCommand::Write(CmdType::Raw("x".to_string())));
    assert_eq!(worker.request(), Request::ReadLine(0));
}

#[test]
fn a_switch_takes_effect_before_the_next_read() {
    let mut worker: SerialWorker<Handle> = SerialWorker::new();
    let mut opens = 0;
    switch(&mut worker, "A", &mut opens);
    worker.on_read(None);
    switch(&mut worker, "B", &mut opens);
    assert_eq!(worker.request(), Request::ReadLine(1));
    assert_eq!(
        worker.on_read(Some("L".to_string())),
        vec![Effect::Data("B".to_string(), "L".to_string())]
    );
    worker.on_command(PortCommand::ChangePort("A".to_string()));
    assert_eq!(worker.request(), Request::ReadLine(0));
}

#[test]
fn first_switch_asks_for_an_open() {
    let mut worker: SerialWorker<Handle> = SerialWorker::new();
    let plan = worker.on_command(PortCommand::ChangePort("A".to_string()));
    assert_eq!(plan, vec![Effect::Open("A".to_string())]);
    assert_eq!(worker.active(), None);
    assert_eq!(worker.request(), Request::AwaitCommand(None));
    let report = worker.opened("A".to_string(), Handle(1));
    assert_eq!(report, vec![Effect::Result("A".to_string(), true)]);
    assert_eq!(worker.active(), Some(0));
    assert_eq!(worker.request(), Request::ReadLine(0));
}

#[test]
fn opening_twice_opens_once() {
    let mut worker: SerialWorker<Handle> = SerialWorker::new();
    let mut opens = 0;
    assert_eq!(
        switch(&mut worker, "A", &mut opens),
        vec![Effect::Result("A".to_string(), true)]
    );
    assert_eq!(
        switch(&mut worker, "A", &mut opens),
        vec![Effect::Result("A".to_string(), true)]
    );
    assert_eq!(opens, 1);
    assert_eq!(worker.active(), Some(0));
    assert_eq!(worker.connection_mut(0), &mut Handle(1));
}

#[test]
fn switching_back_reuses_the_first_connection() {
    let mut worker: SerialWorker<Handle> = SerialWorker::new();
    let mut opens = 0;
    switch(&mut worker, "A", &mut opens);
    switch(&mut worker, "B", &mut opens);
    assert_eq!(worker.active(), Some(1));
    assert_eq!(opens, 2);
    let back = worker.on_command(PortCommand::ChangePort("A".to_string()));
    assert_eq!(back, vec![Effect::Result("A".to_string(), true)]);
    assert_eq!(opens, 2);
    assert_eq!(worker.active(), Some(0));
    assert_eq!(worker.connection_mut(0), &mut Handle(1));
    assert_eq!(worker.connection_mut(1), &mut Handle(2));
    assert_eq!(worker.slot_of("B"), Some(1));
    assert_eq!(
        worker.on_read(Some("resumed".to_string())),
        vec![Effect::Data("A".to_string(), "resumed".to_string())]
    );
}

#[test]
fn failed_open_aborts_and_enters_nothing() {
    let mut worker: SerialWorker<Handle> = SerialWorker::new();
    let mut opens = 0;
    switch(&mut worker, "A", &mut opens);
    let plan = worker.on_command(PortCommand::ChangePort("gone".to_string()));
    assert_eq!(plan, vec![Effect::Open("gone".to_string())]);
    assert_eq!(
        worker.open_failed("gone".to_string(), OpenError::NoDevice),
        vec![
            Effect::Result("gone".to_string(), false),
            Effect::Abort("gone".to_string(), OpenError::NoDevice),
        ]
    );
    assert_eq!(
        worker.open_failed("gone".to_string(), OpenError::Io),
        vec![
            Effect::Result("gone".to_string(), false),
            Effect::Abort("gone".to_string(), OpenError::Io),
        ]
    );
    assert_eq!(worker.slot_of("gone"), None);
    assert_eq!(worker.open_count(), 1);
    assert_eq!(worker.active(), Some(0));
}

#[test]
fn raw_text_is_echoed_then_written() {
    let mut worker: SerialWorker<Handle> = SerialWorker::new();
    let mut opens = 0;
    switch(&mut worker, "A", &mut opens);
    let plan = worker.on_command(PortCommand::Write(CmdType::Raw("AT\n".to_string())));
    assert_eq!(
        plan,
        vec![
            Effect::Data("A".to_string(), "AT\n".to_string()),
            Effect::Write(0, "AT\n".to_string()),
        ]
    );
}

#[test]
fn writes_without_an_active_device_do_nothing() {
    let mut worker: SerialWorker<Handle> = SerialWorker::new();
    assert_eq!(
        worker.on_command(PortCommand::Write(CmdType::Raw("AT\n".to_string()))),
        vec![]
    );
    assert_eq!(worker.on_command(PortCommand::Write(CmdType::Dtr(true))), vec![]);
    assert_eq!(worker.on_command(PortCommand::Write(CmdType::Rts(false))), vec![]);
    assert_eq!(worker.active(), None);
}

#[test]
fn dtr_command_runs_its_script_on_the_active_device() {
    let mut worker: SerialWorker<Handle> = SerialWorker::new();
    let mut opens = 0;
    switch(&mut worker, "A", &mut opens);
    switch(&mut worker, "B", &mut opens);
    let expected = vec![
        Effect::Flow(1, FlowStep::Rts(true)),
        Effect::Flow(1, FlowStep::Dtr(false)),
        Effect::Flow(1, FlowStep::Sleep(1000)),
        Effect::Flow(1, FlowStep::Dtr(true)),
        Effect::Flow(1, FlowStep::Rts(false)),
    ];
    assert_eq!(worker.on_command(PortCommand::Write(CmdType::Dtr(true))), expected);
    assert_eq!(worker.on_command(PortCommand::Write(CmdType::Dtr(false))), expected);
}

#[test]
fn rts_command_runs_its_script_on_the_active_device() {
    let mut worker: SerialWorker<Handle> = SerialWorker::new();
    let mut opens = 0;
    switch(&mut worker, "A", &mut opens);
    let expected = vec![
        Effect::Flow(0, FlowStep::Rts(false)),
        Effect::Flow(0, FlowStep::Dtr(false)),
        Effect::Flow(0, FlowStep::Sleep(100)),
        Effect::Flow(0, FlowStep::Dtr(true)),
        Effect::Flow(0, FlowStep::Rts(false)),
        Effect::Flow(0, FlowStep::Sleep(100)),
        Effect::Flow(0, FlowStep::Rts(true)),
        Effect::Flow(0, FlowStep::Dtr(false)),
        Effect::Flow(0, FlowStep::Rts(true)),
        Effect::Flow(0, FlowStep::Sleep(100)),
        Effect::Flow(0, FlowStep::Rts(false)),
        Effect::Flow(0, FlowStep::Dtr(false)),
    ];
    assert_eq!(worker.on_command(PortCommand::Write(CmdType::Rts(true))), expected);
    assert_eq!(worker.on_command(PortCommand::Write(CmdType::Rts(false))), expected);
}

#[test]
fn lines_go_out_under_the_active_name() {
    let mut worker: SerialWorker<Handle> = SerialWorker::new();
    let mut opens = 0;
    switch(&mut worker, "A", &mut opens);
    assert_eq!(
        worker.on_read(Some("L1".to_string())),
        vec![Effect::Data("A".to_string(), "L1".to_string())]
    );
    assert_eq!(worker.on_read(None), vec![]);
    switch(&mut worker, "B", &mut opens);
    assert_eq!(
        worker.on_read(Some("L2".to_string())),
        vec![Effect::Data("B".to_string(), "L2".to_string())]
    );
}

#[test]
fn data_out_keeps_the_order_of_the_lines() {
    let mut worker: SerialWorker<Handle> = SerialWorker::new();
    let mut opens = 0;
    switch(&mut worker, "A", &mut opens);
    let mut out = Vec::new();
    for line in ["L1", "L2", "L3"] {
        out.extend(worker.on_read(Some(line.to_string())));
    }
    assert_eq!(
        out,
        vec![
            Effect::Data("A".to_string(), "L1".to_string()),
            Effect::Data("A".to_string(), "L2".to_string()),
            Effect::Data("A".to_string(), "L3".to_string()),
        ]
    );
}
