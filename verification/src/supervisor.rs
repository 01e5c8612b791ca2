//! The process supervisor: a state machine that owns the life of the one
//! supervised child. It never touches a process itself. The program reports
//! what it observed as an [`Input`]; [`Supervisor::step`] answers with the
//! [`Command`]s to carry out, in order.

use crate::event::{Event, EventView};
use vstd::prelude::*;

verus! {

/// The pause after a respawn attempt, in milliseconds. It bounds how fast a
/// crashing child can be restarted.
pub const SETTLE_MILLIS: u64 = 500;

/// Where the supervised child stands.
#[derive(Clone, Copy, Debug, PartialEq, Eq, Structural)]
pub enum Phase {
    /// No child is alive and a launch has been asked for: the first one, or
    /// the one that follows an exit.
    Spawning,
    /// The child is alive.
    Running,
    /// The child is alive and has been sent the reload signal.
    Signaled,
    /// The child has exited and the last attempt to replace it failed; the
    /// next attempt follows the settle delay.
    Exited,
}

/// The running instance of the application.
#[derive(Clone, Copy, Debug, PartialEq, Eq, Structural)]
pub struct SupervisedProcess {
    /// The process identifier of the current child.
    pub pid: u32,
    /// How many times the child has been respawned.
    pub generation: u64,
}

/// What the program observed.
#[derive(Debug, PartialEq, Eq)]
pub enum Input {
    /// A lifecycle event was taken from the event channel.
    Lifecycle(Event),
    /// The child exited, for whatever reason.
    ChildExited,
    /// The launch that was asked for succeeded.
    Spawned { pid: u32 },
    /// The launch that was asked for failed.
    SpawnFailed,
}

/// What the program is to do next.
#[derive(Debug, PartialEq, Eq)]
pub enum Command {
    /// Hand the event to the event bus.
    Publish(Event),
    /// Send `signal` to the process `pid`, without waiting for its exit.
    Signal { pid: u32, signal: i32 },
    /// Run the build tool.
    Build,
    /// Launch the application binary and report how that went.
    Spawn,
    /// Wait for `millis` milliseconds before the next command.
    Settle { millis: u64 },
    /// Give up: the application could not be launched even once.
    Abort,
}

/// An [`Input`] as a mathematical value.
pub ghost enum InputView {
    Lifecycle(EventView),
    ChildExited,
    Spawned { pid: u32 },
    SpawnFailed,
}

/// A [`Command`] as a mathematical value.
pub ghost enum CommandView {
    Publish(EventView),
    Signal { pid: u32, signal: i32 },
    Build,
    Spawn,
    Settle { millis: u64 },
    Abort,
}

impl View for Input {
    type V = InputView;

    open spec fn view(&self) -> InputView {
        match self {
            Input::Lifecycle(event) => InputView::Lifecycle(event@),
            Input::ChildExited => InputView::ChildExited,
            Input::Spawned { pid } => InputView::Spawned { pid: *pid },
            Input::SpawnFailed => InputView::SpawnFailed,
        }
    }
}

impl View for Command {
    type V = CommandView;

    open spec fn view(&self) -> CommandView {
        match self {
            Command::Publish(event) => CommandView::Publish(event@),
            Command::Signal { pid, signal } => CommandView::Signal { pid: *pid, signal: *signal },
            Command::Build => CommandView::Build,
            Command::Spawn => CommandView::Spawn,
            Command::Settle { millis } => CommandView::Settle { millis: *millis },
            Command::Abort => CommandView::Abort,
        }
    }
}

/// The views of a list of commands, in order.
pub open spec fn command_views(commands: Seq<Command>) -> Seq<CommandView> {
    commands.map_values(|c: Command| c@)
}

/// The supervisor's state as a mathematical value.
pub ghost struct SupervisorView {
    pub phase: Phase,
    /// The current child, or the last one while it is being replaced; `None`
    /// until the first launch has succeeded.
    pub process: Option<SupervisedProcess>,
    /// The signal that asks the child to shut down.
    pub signal: i32,
}

impl SupervisorView {
    /// A child is alive.
    pub open spec fn child_alive(self) -> bool {
        self.phase == Phase::Running || self.phase == Phase::Signaled
    }

    /// A launch has been asked for and its outcome is awaited.
    pub open spec fn awaits_launch(self) -> bool {
        self.phase == Phase::Spawning || self.phase == Phase::Exited
    }

    /// A child that is alive, or that failed to come back, has been launched
    /// before.
    pub open spec fn valid(self) -> bool {
        self.phase != Phase::Spawning ==> self.process is Some
    }

    pub open spec fn with_phase(self, phase: Phase) -> SupervisorView {
        SupervisorView { phase, process: self.process, signal: self.signal }
    }
}

/// The generation after `generation`. The counter stops at its largest value.
pub open spec fn next_generation(generation: u64) -> u64 {
    if generation < u64::MAX {
        (generation + 1) as u64
    } else {
        generation
    }
}

/// The state after one input, and the commands it calls for.
///
/// Every lifecycle event is published. A changed binary is answered with the
/// reload signal to the living child, a rebuild request with a build; neither
/// touches the process record. An exit asks for a launch. A launch that
/// succeeds makes the child current: the first one silently, a later one with
/// the next generation, the settle delay and a `Restarted` event. A launch
/// that fails is fatal the first time and is tried again after the settle
/// delay from then on. Inputs that do not fit the phase change nothing.
pub open spec fn step_spec(s: SupervisorView, input: InputView) -> (SupervisorView, Seq<CommandView>) {
    match input {
        InputView::Lifecycle(event) => match event {
            EventView::BinaryChanged => if s.child_alive() {
                (
                    s.with_phase(Phase::Signaled),
                    seq![
                        CommandView::Publish(event),
                        CommandView::Signal { pid: s.process->0.pid, signal: s.signal },
                    ],
                )
            } else {
                (s, seq![CommandView::Publish(event)])
            },
            EventView::Rebuild => (s, seq![CommandView::Publish(event), CommandView::Build]),
            _ => (s, seq![CommandView::Publish(event)]),
        },
        InputView::ChildExited => if s.child_alive() {
            (s.with_phase(Phase::Spawning), seq![CommandView::Spawn])
        } else {
            (s, seq![])
        },
        InputView::Spawned { pid } => if s.awaits_launch() {
            match s.process {
                None => (
                    SupervisorView {
                        phase: Phase::Running,
                        process: Some(SupervisedProcess { pid, generation: 0 }),
                        signal: s.signal,
                    },
                    seq![],
                ),
                Some(last) => (
                    SupervisorView {
                        phase: Phase::Running,
                        process: Some(
                            SupervisedProcess { pid, generation: next_generation(last.generation) },
                        ),
                        signal: s.signal,
                    },
                    seq![
                        CommandView::Settle { millis: SETTLE_MILLIS },
                        CommandView::Publish(EventView::Restarted),
                    ],
                ),
            }
        } else {
            (s, seq![])
        },
        InputView::SpawnFailed => if s.awaits_launch() {
            match s.process {
                None => (s, seq![CommandView::Abort]),
                Some(_) => (
                    s.with_phase(Phase::Exited),
                    seq![CommandView::Settle { millis: SETTLE_MILLIS }, CommandView::Spawn],
                ),
            }
        } else {
            (s, seq![])
        },
    }
}

/// The state after a sequence of inputs, and all the commands they called
/// for, in order.
pub open spec fn run_spec(s: SupervisorView, inputs: Seq<InputView>) -> (SupervisorView, Seq<CommandView>)
    decreases inputs.len(),
{
    if inputs.len() == 0 {
        (s, seq![])
    } else {
        let before = run_spec(s, inputs.drop_last());
        let last = step_spec(before.0, inputs.last());
        (last.0, before.1 + last.1)
    }
}

/// How many of `commands` publish a `Restarted` event.
pub open spec fn restarts(commands: Seq<CommandView>) -> nat
    decreases commands.len(),
{
    if commands.len() == 0 {
        0
    } else {
        let rest = restarts(commands.drop_last());
        if commands.last() == CommandView::Publish(EventView::Restarted) {
            rest + 1
        } else {
            rest
        }
    }
}

/// The owner of the supervised child's lifecycle.
#[derive(Debug)]
pub struct Supervisor {
    phase: Phase,
    process: Option<SupervisedProcess>,
    signal: i32,
}

impl View for Supervisor {
    type V = SupervisorView;

    closed spec fn view(&self) -> SupervisorView {
        SupervisorView { phase: self.phase, process: self.process, signal: self.signal }
    }
}

impl Supervisor {
    #[verifier::type_invariant]
    spec fn inv(self) -> bool {
        self@.valid()
    }

    /// A supervisor that awaits the first launch of the application. `signal`
    /// is the signal that will ask the child to shut down.
    pub fn new(signal: i32) -> (r: Supervisor)
        ensures
            r@ == (SupervisorView { phase: Phase::Spawning, process: None, signal }),
    {
        Supervisor { phase: Phase::Spawning, process: None, signal }
    }

    /// Where the child stands.
    pub fn phase(&self) -> (r: Phase)
        ensures
            r == self@.phase,
    {
        self.phase
    }

    /// The current child; the last one while it is being replaced; `None`
    /// before the first launch.
    pub fn process(&self) -> (r: Option<SupervisedProcess>)
        ensures
            r == self@.process,
            self@.valid(),
    {
        proof {
            use_type_invariant(self);
        }
        self.process
    }

    /// The signal that asks the child to shut down.
    pub fn signal(&self) -> (r: i32)
        ensures
            r == self@.signal,
    {
        self.signal
    }

    /// Takes in one observation and returns what to do about it.
    pub fn step(&mut self, input: Input) -> (commands: Vec<Command>)
        ensures
            final(self)@ == step_spec(old(self)@, input@).0,
            command_views(commands@) == step_spec(old(self)@, input@).1,
    {
        proof {
            use_type_invariant(&*self);
        }
        let alive = match self.phase {
            Phase::Running => true,
            Phase::Signaled => true,
            _ => false,
        };
        let mut commands: Vec<Command> = Vec::new();
        match input {
            Input::Lifecycle(event) => {
                let changed = match &event {
                    Event::BinaryChanged => true,
                    _ => false,
                };
                let rebuild = match &event {
                    Event::Rebuild => true,
                    _ => false,
                };
                commands.push(Command::Publish(event));
                if rebuild {
                    commands.push(Command::Build);
                } else if changed && alive {
                    match self.process {
                        Some(child) => {
                            commands.push(Command::Signal { pid: child.pid, signal: self.signal });
                            self.phase = Phase::Signaled;
                        },
                        None => {},
                    }
                }
            },
            Input::ChildExited => {
                if alive {
                    self.phase = Phase::Spawning;
                    commands.push(Command::Spawn);
                }
            },
            Input::Spawned { pid } => {
                if !alive {
                    match self.process {
                        None => {
                            *self = Supervisor {
                                phase: Phase::Running,
                                process: Some(SupervisedProcess { pid, generation: 0 }),
                                signal: self.signal,
                            };
                        },
                        Some(last) => {
                            let generation = if last.generation < u64::MAX {
                                last.generation + 1
                            } else {
                                last.generation
                            };
                            *self = Supervisor {
                                phase: Phase::Running,
                                process: Some(SupervisedProcess { pid, generation }),
                                signal: self.signal,
                            };
                            commands.push(Command::Settle { millis: SETTLE_MILLIS });
                            commands.push(Command::Publish(Event::Restarted));
                        },
                    }
                }
            },
            Input::SpawnFailed => {
                if !alive {
                    match self.process {
                        None => {
                            commands.push(Command::Abort);
                        },
                        Some(_) => {
                            self.phase = Phase::Exited;
                            commands.push(Command::Settle { millis: SETTLE_MILLIS });
                            commands.push(Command::Spawn);
                        },
                    }
                }
            },
        }
        assert(command_views(commands@) =~= step_spec(old(self)@, input@).1);
        commands
    }
}

/// No step leads out of the valid states: whatever is observed, a child that
/// is alive, or that failed to come back, has been launched before.
pub proof fn step_keeps_valid(s: SupervisorView, input: InputView)
    requires
        s.valid(),
    ensures
        step_spec(s, input).0.valid(),
{
}

/// The signal is fixed when the supervisor is made: no step changes it.
pub proof fn step_keeps_signal(s: SupervisorView, input: InputView)
    ensures
        step_spec(s, input).0.signal == s.signal,
{
}

/// A lifecycle event other than `BinaryChanged`.
pub open spec fn leaves_binary(input: InputView) -> bool {
    input matches InputView::Lifecycle(event) && event != EventView::BinaryChanged
}

/// Running two sequences of inputs one after the other is running their
/// concatenation.
pub proof fn run_spec_concat(s: SupervisorView, first: Seq<InputView>, second: Seq<InputView>)
    ensures
        run_spec(s, first + second).0 == run_spec(run_spec(s, first).0, second).0,
        run_spec(s, first + second).1 == run_spec(s, first).1 + run_spec(
            run_spec(s, first).0,
            second,
        ).1,
    decreases second.len(),
{
    if second.len() == 0 {
        assert(first + second =~= first);
        assert(run_spec(s, first).1 + Seq::<CommandView>::empty() =~= run_spec(s, first).1);
    } else {
        run_spec_concat(s, first, second.drop_last());
        assert((first + second).drop_last() =~= first + second.drop_last());
        assert((first + second).last() == second.last());
        let mid = run_spec(s, first);
        let before = run_spec(mid.0, second.drop_last());
        let last = step_spec(before.0, second.last());
        assert((mid.1 + before.1) + last.1 =~= mid.1 + (before.1 + last.1));
    }
}

/// The commands of two runs hold as many `Restarted` events as the two
/// together.
pub proof fn restarts_concat(first: Seq<CommandView>, second: Seq<CommandView>)
    ensures
        restarts(first + second) == restarts(first) + restarts(second),
    decreases second.len(),
{
    if second.len() == 0 {
        assert(first + second =~= first);
    } else {
        restarts_concat(first, second.drop_last());
        assert((first + second).drop_last() =~= first + second.drop_last());
        assert((first + second).last() == second.last());
    }
}

/// Build requests and the events that report on builds and restarts never
/// touch the child: over any sequence of lifecycle events that holds no
/// `BinaryChanged`, the supervisor's state, and with it the process
/// identifier and the generation counter, stays what it was, and nothing is
/// asked for but publishing and building.
pub proof fn process_unchanged_without_binary_change(s: SupervisorView, inputs: Seq<InputView>)
    requires
        forall|i: int| 0 <= i < inputs.len() ==> leaves_binary(#[trigger] inputs[i]),
    ensures
        run_spec(s, inputs).0 == s,
        forall|k: int|
            0 <= k < run_spec(s, inputs).1.len() ==> {
                let command = #[trigger] run_spec(s, inputs).1[k];
                command is Publish || command is Build
            },
    decreases inputs.len(),
{
    if inputs.len() > 0 {
        process_unchanged_without_binary_change(s, inputs.drop_last());
        assert(leaves_binary(inputs[inputs.len() - 1]));
    }
}

/// A run of rebuild requests is answered by publishing each and building
/// after each, and by nothing else.
pub proof fn rebuilds_only_build(s: SupervisorView, inputs: Seq<InputView>)
    requires
        forall|i: int|
            0 <= i < inputs.len() ==> #[trigger] inputs[i] == InputView::Lifecycle(
                EventView::Rebuild,
            ),
    ensures
        run_spec(s, inputs).0 == s,
        run_spec(s, inputs).1.len() == 2 * inputs.len(),
        forall|i: int|
            0 <= i < inputs.len() ==> {
                &&& #[trigger] run_spec(s, inputs).1[2 * i] == CommandView::Publish(
                    EventView::Rebuild,
                )
                &&& run_spec(s, inputs).1[2 * i + 1] == CommandView::Build
            },
    decreases inputs.len(),
{
    if inputs.len() > 0 {
        rebuilds_only_build(s, inputs.drop_last());
        assert(inputs[inputs.len() - 1] == InputView::Lifecycle(EventView::Rebuild));
        let before = run_spec(s, inputs.drop_last());
        let all = run_spec(s, inputs);
        assert forall|i: int| 0 <= i < inputs.len() implies {
            &&& #[trigger] all.1[2 * i] == CommandView::Publish(EventView::Rebuild)
            &&& all.1[2 * i + 1] == CommandView::Build
        } by {
            if i < inputs.len() - 1 {
                assert(before.1[2 * i] == CommandView::Publish(EventView::Rebuild));
            }
        }
    }
}

/// The inputs of one reload: the binary changes, the child exits, `failures`
/// launches fail, one succeeds with the process identifier `pid`.
pub open spec fn reload_inputs(failures: nat, pid: u32) -> Seq<InputView> {
    seq![InputView::Lifecycle(EventView::BinaryChanged), InputView::ChildExited] + Seq::new(
        failures,
        |i: int| InputView::SpawnFailed,
    ) + seq![InputView::Spawned { pid }]
}

/// A list that holds no `Restarted` event counts none.
proof fn restarts_absent(commands: Seq<CommandView>)
    requires
        forall|k: int|
            0 <= k < commands.len() ==> #[trigger] commands[k] != CommandView::Publish(
                EventView::Restarted,
            ),
    ensures
        restarts(commands) == 0,
    decreases commands.len(),
{
    if commands.len() > 0 {
        restarts_absent(commands.drop_last());
        assert(commands[commands.len() - 1] != CommandView::Publish(EventView::Restarted));
    }
}

/// Running one more input is taking one more step.
proof fn run_spec_push(s: SupervisorView, inputs: Seq<InputView>, input: InputView)
    ensures
        run_spec(s, inputs.push(input)).0 == step_spec(run_spec(s, inputs).0, input).0,
        run_spec(s, inputs.push(input)).1 == run_spec(s, inputs).1 + step_spec(
            run_spec(s, inputs).0,
            input,
        ).1,
{
    assert(inputs.push(input).drop_last() =~= inputs);
}

/// Failed launches after an exit publish nothing and leave the supervisor
/// waiting for the next attempt.
proof fn failed_launches(s: SupervisorView, failures: nat)
    requires
        s.awaits_launch(),
        s.process is Some,
    ensures
        ({
            let end = run_spec(s, Seq::new(failures, |i: int| InputView::SpawnFailed));
            &&& end.0.awaits_launch()
            &&& end.0.process == s.process
            &&& end.0.signal == s.signal
            &&& restarts(end.1) == 0
        }),
    decreases failures,
{
    let inputs = Seq::new(failures, |i: int| InputView::SpawnFailed);
    if failures > 0 {
        let fewer = Seq::new((failures - 1) as nat, |i: int| InputView::SpawnFailed);
        failed_launches(s, (failures - 1) as nat);
        assert(inputs =~= fewer.push(InputView::SpawnFailed));
        run_spec_push(s, fewer, InputView::SpawnFailed);
        let before = run_spec(s, fewer);
        let last = step_spec(before.0, InputView::SpawnFailed);
        restarts_absent(last.1);
        restarts_concat(before.1, last.1);
    }
}

/// A changed binary brings the child back exactly once. From any state with
/// a living child: when the binary changes, the child exits and a launch
/// succeeds, after any number of failed ones, the supervisor is running the
/// new process in the next generation, and among all the commands it gave
/// exactly one publishes `Restarted`.
pub proof fn binary_change_restarts_once(s: SupervisorView, failures: nat, pid: u32)
    requires
        s.valid(),
        s.child_alive(),
    ensures
        ({
            let end = run_spec(s, reload_inputs(failures, pid));
            &&& end.0.phase == Phase::Running
            &&& end.0.process == Some(
                SupervisedProcess { pid, generation: next_generation(s.process->0.generation) },
            )
            &&& end.0.signal == s.signal
            &&& restarts(end.1) == 1
        }),
{
    let none = Seq::<InputView>::empty();
    let changed = InputView::Lifecycle(EventView::BinaryChanged);
    let head = seq![changed, InputView::ChildExited];
    let middle = Seq::new(failures, |i: int| InputView::SpawnFailed);
    let tail = seq![InputView::Spawned { pid }];

    // The change and the exit.
    assert(head =~= none.push(changed).push(InputView::ChildExited));
    run_spec_push(s, none, changed);
    run_spec_push(s, none.push(changed), InputView::ChildExited);
    let after_head = run_spec(s, head);
    assert(after_head.0 == s.with_phase(Phase::Spawning));
    restarts_absent(after_head.1);

    // The launches that fail.
    failed_launches(after_head.0, failures);
    let after_middle = run_spec(after_head.0, middle);

    // The launch that succeeds.
    assert(tail =~= none.push(InputView::Spawned { pid }));
    run_spec_push(after_middle.0, none, InputView::Spawned { pid });
    let after_tail = run_spec(after_middle.0, tail);
    let settle = seq![CommandView::Settle { millis: SETTLE_MILLIS }];
    assert(after_tail.1 =~= settle.push(CommandView::Publish(EventView::Restarted)));
    assert(after_tail.1.drop_last() =~= settle);
    restarts_absent(settle);

    run_spec_concat(s, head, middle);
    run_spec_concat(s, head + middle, tail);
    restarts_concat(after_head.1, after_middle.1);
    restarts_concat(after_head.1 + after_middle.1, after_tail.1);
}

} // verus!
