use trillium_cli::build_runner::{rebuild, BuildOutput};
use trillium_cli::bus::EventBus;
use trillium_cli::event::Event;
use trillium_cli::supervisor::{Command, Input, Phase, SupervisedProcess, Supervisor, SETTLE_MILLIS};
use trillium_cli::watch::classify_change;

fn running(pid: u32, signal: i32) -> Supervisor {
    let mut supervisor = Supervisor::new(signal);
    assert_eq!(supervisor.step(Input::Spawned { pid }), vec![]);
    supervisor
}

#[test]
fn a_new_supervisor_awaits_the_first_launch() {
    let supervisor = Supervisor::new(15);
    assert_eq!(supervisor.phase(), Phase::Spawning);
    assert_eq!(supervisor.process(), None);
    assert_eq!(supervisor.signal(), 15);
}

#[test]
fn the_first_launch_is_silent() {
    let supervisor = running(100, 15);
    assert_eq!(supervisor.phase(), Phase::Running);
    assert_eq!(supervisor.process(), Some(SupervisedProcess { pid: 100, generation: 0 }));
}

#[test]
fn a_failed_first_launch_is_fatal() {
    let mut supervisor = Supervisor::new(15);
    assert_eq!(supervisor.step(Input::SpawnFailed), vec![Command::Abort]);
    assert_eq!(supervisor.phase(), Phase::Spawning);
    assert_eq!(supervisor.process(), None);
}

#[test]
fn the_settle_delay_is_half_a_second() {
    assert_eq!(SETTLE_MILLIS, 500);
}

#[test]
fn binary_change_signals_the_child() {
    let mut supervisor = running(100, 15);
    let commands = supervisor.step(Input::Lifecycle(Event::BinaryChanged));
    assert_eq!(
        commands,
        vec![Command::Publish(Event::BinaryChanged), Command::Signal { pid: 100, signal: 15 }]
    );
    assert_eq!(supervisor.phase(), Phase::Signaled);
    assert_eq!(supervisor.process(), Some(SupervisedProcess { pid: 100, generation: 0 }));
}

#[test]
fn a_second_binary_change_signals_again() {
    let mut supervisor = running(100, 1);
    supervisor.step(Input::Lifecycle(Event::BinaryChanged));
    let commands = supervisor.step(Input::Lifecycle(Event::BinaryChanged));
    assert_eq!(
        commands,
        vec![Command::Publish(Event::BinaryChanged), Command::Signal { pid: 100, signal: 1 }]
    );
    assert_eq!(supervisor.phase(), Phase::Signaled);
}

#[test]
fn binary_change_without_a_child_is_only_published() {
    let mut supervisor = Supervisor::new(15);
    assert_eq!(
        supervisor.step(Input::Lifecycle(Event::BinaryChanged)),
        vec![Command::Publish(Event::BinaryChanged)]
    );
    assert_eq!(supervisor.phase(), Phase::Spawning);

    let mut supervisor = running(7, 15);
    supervisor.step(Input::ChildExited);
    assert_eq!(
        supervisor.step(Input::Lifecycle(Event::BinaryChanged)),
        vec![Command::Publish(Event::BinaryChanged)]
    );
    assert_eq!(supervisor.phase(), Phase::Spawning);
}

#[test]
fn rebuilds_do_not_touch_the_process() {
    let mut supervisor = running(100, 15);
    for _ in 0..25 {
        let commands = supervisor.step(Input::Lifecycle(Event::Rebuild));
        assert_eq!(commands, vec![Command::Publish(Event::Rebuild), Command::Build]);
        assert_eq!(supervisor.phase(), Phase::Running);
        assert_eq!(supervisor.process(), Some(SupervisedProcess { pid: 100, generation: 0 }));
    }
}

#[test]
fn build_reports_are_only_published() {
    let mut supervisor = running(100, 15);
    assert_eq!(
        supervisor.step(Input::Lifecycle(Event::BuildSuccess)),
        vec![Command::Publish(Event::BuildSuccess)]
    );
    let error = Event::CompileError { error: "no".to_string() };
    assert_eq!(
        supervisor.step(Input::Lifecycle(error.clone())),
        vec![Command::Publish(error)]
    );
    assert_eq!(
        supervisor.step(Input::Lifecycle(Event::Restarted)),
        vec![Command::Publish(Event::Restarted)]
    );
    assert_eq!(supervisor.phase(), Phase::Running);
    assert_eq!(supervisor.process(), Some(SupervisedProcess { pid: 100, generation: 0 }));
}

#[test]
fn an_exit_asks_for_a_launch() {
    let mut supervisor = running(100, 15);
    assert_eq!(supervisor.step(Input::ChildExited), vec![Command::Spawn]);
    assert_eq!(supervisor.phase(), Phase::Spawning);
    assert_eq!(supervisor.process(), Some(SupervisedProcess { pid: 100, generation: 0 }));
}

#[test]
fn a_respawn_is_the_next_generation() {
    let mut supervisor = running(100, 15);
    supervisor.step(Input::ChildExited);
    let commands = supervisor.step(Input::Spawned { pid: 101 });
    assert_eq!(
        commands,
        vec![Command::Settle { millis: 500 }, Command::Publish(Event::Restarted)]
    );
    assert_eq!(supervisor.phase(), Phase::Running);
    assert_eq!(supervisor.process(), Some(SupervisedProcess { pid: 101, generation: 1 }));
}

#[test]
fn a_failed_respawn_is_tried_again_after_the_delay() {
    let mut supervisor = running(100, 15);
    supervisor.step(Input::ChildExited);
    for _ in 0..3 {
        assert_eq!(
            supervisor.step(Input::SpawnFailed),
            vec![Command::Settle { millis: 500 }, Command::Spawn]
        );
        assert_eq!(supervisor.phase(), Phase::Exited);
        assert_eq!(supervisor.process(), Some(SupervisedProcess { pid: 100, generation: 0 }));
    }
    assert_eq!(
        supervisor.step(Input::Spawned { pid: 102 }),
        vec![Command::Settle { millis: 500 }, Command::Publish(Event::Restarted)]
    );
    assert_eq!(supervisor.phase(), Phase::Running);
    assert_eq!(supervisor.process(), Some(SupervisedProcess { pid: 102, generation: 1 }));
}

#[test]
fn inputs_that_do_not_fit_change_nothing() {
    let mut supervisor = running(100, 15);
    assert_eq!(supervisor.step(Input::Spawned { pid: 5 }), vec![]);
    assert_eq!(supervisor.step(Input::SpawnFailed), vec![]);
    assert_eq!(supervisor.phase(), Phase::Running);
    assert_eq!(supervisor.process(), Some(SupervisedProcess { pid: 100, generation: 0 }));

    let mut supervisor = Supervisor::new(15);
    assert_eq!(supervisor.step(Input::ChildExited), vec![]);
    assert_eq!(supervisor.phase(), Phase::Spawning);
    assert_eq!(supervisor.process(), None);
}

#[test]
fn a_changed_binary_restarts_exactly_once() {
    for failures in 0..4 {
        let mut supervisor = running(100, 15);
        let mut commands = Vec::new();
        commands.extend(supervisor.step(Input::Lifecycle(Event::BinaryChanged)));
        commands.extend(supervisor.step(Input::ChildExited));
        for _ in 0..failures {
            commands.extend(supervisor.step(Input::SpawnFailed));
        }
        commands.extend(supervisor.step(Input::Spawned { pid: 200 }));
        let restarts = commands
            .iter()
            .filter(|c| **c == Command::Publish(Event::Restarted))
            .count();
        assert_eq!(restarts, 1);
        assert_eq!(supervisor.phase(), Phase::Running);
        assert_eq!(supervisor.process(), Some(SupervisedProcess { pid: 200, generation: 1 }));
    }
}

#[test]
fn generations_count_the_respawns() {
    let mut supervisor = running(1, 15);
    for round in 1..=10u64 {
        supervisor.step(Input::Lifecycle(Event::BinaryChanged));
        supervisor.step(Input::ChildExited);
        supervisor.step(Input::Spawned { pid: 1 + round as u32 });
        assert_eq!(
            supervisor.process(),
            Some(SupervisedProcess { pid: 1 + round as u32, generation: round })
        );
    }
}

#[test]
fn scenario_binary_change_reaches_every_client() {
    let binary = "/project/target/debug/app";
    let mut bus = EventBus::new(16);
    let first = bus.subscribe().unwrap();
    let second = bus.subscribe().unwrap();
    let mut supervisor = running(4242, 15);

    let event = classify_change("/project/target/debug/app", binary);
    assert_eq!(event, Event::BinaryChanged);

    let mut signals = Vec::new();
    let mut inputs = vec![Input::Lifecycle(event)];
    let mut exited = false;
    while let Some(input) = inputs.pop() {
        for command in supervisor.step(input) {
            match command {
                Command::Publish(event) => {
                    assert_eq!(bus.publish(&event), Vec::<u64>::new());
                }
                Command::Signal { pid, signal } => {
                    signals.push((pid, signal));
                    if !exited {
                        exited = true;
                        inputs.push(Input::ChildExited);
                    }
                }
                Command::Spawn => inputs.push(Input::Spawned { pid: 4243 }),
                Command::Settle { millis } => assert_eq!(millis, 500),
                Command::Build => panic!("nothing is built for a changed binary"),
                Command::Abort => panic!("the child could be launched"),
            }
        }
    }
    assert_eq!(signals, vec![(4242, 15)]);
    assert_eq!(supervisor.process(), Some(SupervisedProcess { pid: 4243, generation: 1 }));
    for id in [first, second] {
        assert_eq!(bus.poll(id), Some(Event::BinaryChanged));
        assert_eq!(bus.poll(id), Some(Event::Restarted));
        assert_eq!(bus.poll(id), None);
    }
}

#[test]
fn scenario_source_change_with_compile_error() {
    let binary = "/project/target/debug/app";
    let mut supervisor = running(4242, 15);
    let event = classify_change("/project/src/main.rs", binary);
    assert_eq!(event, Event::Rebuild);

    let commands = supervisor.step(Input::Lifecycle(event));
    assert_eq!(commands, vec![Command::Publish(Event::Rebuild), Command::Build]);

    let outcome = rebuild(Ok(BuildOutput {
        status: Some(1),
        stdout: Vec::new(),
        stderr: b"error[E0000]".to_vec(),
    }));
    let event = outcome.event().unwrap();
    match &event {
        Event::CompileError { error } => assert!(error.contains("error[E0000]")),
        other => panic!("unexpected event {:?}", other),
    }
    let commands = supervisor.step(Input::Lifecycle(event.clone()));
    assert_eq!(commands, vec![Command::Publish(event)]);
    assert_eq!(supervisor.phase(), Phase::Running);
    assert_eq!(supervisor.process(), Some(SupervisedProcess { pid: 4242, generation: 0 }));
}
