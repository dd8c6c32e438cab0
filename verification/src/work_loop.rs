//! The rotation loop as a state machine.
//!
//! The caller does the work (selecting an image, running the command,
//! sleeping) and reports each result as an [`Event`]; [`WorkLoop::step`]
//! updates the state and answers with the next [`Action`].

use vstd::prelude::*;
use crate::config::RunConfig;
use crate::config::RunConfigView;
use crate::images::ImageError;

verus! {

/// Why the loop gave up.
#[derive(Clone, Copy, Debug, PartialEq, Eq, Structural)]
pub enum Fatal {
    /// No image could be selected.
    Selection(ImageError),
    /// The number of consecutive failures reached the configured limit.
    TooManyErrors,
}

/// Where the loop stands.
#[derive(Clone, Copy, Debug, PartialEq, Eq, Structural)]
pub enum Phase {
    /// Healthy: the last invocation went well, or none was made yet.
    Running,
    /// Failures are accumulating; retries come at the shorter interval.
    Backoff,
    /// The path was printed; nothing was invoked.
    Success,
    /// One rotation was attempted and the loop was asked for no more.
    RotatedOnce,
    /// The loop gave up.
    FatalAbort(Fatal),
}

impl Phase {
    /// No step leaves a terminal phase.
    pub open spec fn is_terminal(self) -> bool {
        !(self is Running || self is Backoff)
    }

    /// The exit status of a process whose loop is in this phase: zero after a
    /// loop that ended as it was meant to, one after a loop that gave up, and
    /// none while the loop goes on.
    pub open spec fn exit_status_spec(self) -> Option<u8> {
        match self {
            Phase::Success => Some(0u8),
            Phase::RotatedOnce => Some(0u8),
            Phase::FatalAbort(_) => Some(1u8),
            _ => None,
        }
    }

    /// The exit status that goes with this phase, if the loop has ended.
    #[verifier::when_used_as_spec(exit_status_spec)]
    pub fn exit_status(self) -> (status: Option<u8>)
        ensures
            status == self.exit_status_spec(),
            status is Some <==> self.is_terminal(),
    {
        match self {
            Phase::Success => Some(0),
            Phase::RotatedOnce => Some(0),
            Phase::FatalAbort(_) => Some(1),
            _ => None,
        }
    }
}

/// The mutable state of the loop.
#[derive(Clone, Copy, Debug, PartialEq, Eq, Structural)]
pub struct LoopState {
    pub phase: Phase,
    /// Failed invocations since the last one that went well.
    pub consecutive_error_count: usize,
}

/// A [`LoopState`] with an unbounded counter.
pub struct LoopModel {
    pub phase: Phase,
    pub errors: nat,
}

impl View for LoopState {
    type V = LoopModel;

    open spec fn view(&self) -> LoopModel {
        LoopModel { phase: self.phase, errors: self.consecutive_error_count as nat }
    }
}

/// How an invocation of the external command ended.
#[derive(Clone, Copy, Debug, PartialEq, Eq, Structural)]
pub enum Invocation {
    /// The command ran to its end. `code` is its exit code; there is none if
    /// the command was ended from outside.
    Exited { code: Option<i32> },
    /// The command could not be started.
    SpawnFailed,
}

impl Invocation {
    /// Only a command that ran and exited with code zero counts as a success.
    pub open spec fn succeeded_spec(self) -> bool {
        self == (Invocation::Exited { code: Some(0i32) })
    }

    /// Whether the invocation counts as a success.
    #[verifier::when_used_as_spec(succeeded_spec)]
    pub fn succeeded(self) -> (success: bool)
        ensures
            success == self.succeeded_spec(),
    {
        match self {
            Invocation::Exited { code: Some(code) } => code == 0,
            _ => false,
        }
    }
}

/// What the caller reports to the loop.
#[derive(Clone, Debug, PartialEq, Eq)]
pub enum Event {
    /// An image was selected; this is its path.
    Selected(String),
    /// No image could be selected.
    SelectionFailed(ImageError),
    /// The command that the loop asked for has been run.
    Invoked(Invocation),
}

/// An [`Event`] as mathematical values.
pub enum EventView {
    Selected(Seq<char>),
    SelectionFailed(ImageError),
    Invoked(Invocation),
}

impl View for Event {
    type V = EventView;

    open spec fn view(&self) -> EventView {
        match *self {
            Event::Selected(path) => EventView::Selected(path@),
            Event::SelectionFailed(error) => EventView::SelectionFailed(error),
            Event::Invoked(outcome) => EventView::Invoked(outcome),
        }
    }
}

/// What the caller is to do next.
#[derive(Clone, Debug, PartialEq, Eq)]
pub enum Action {
    /// Run `command` with `args`, wait for it, and report an
    /// [`Event::Invoked`].
    Invoke { command: String, args: Vec<String> },
    /// Write `path` to standard output and leave: the loop has ended well.
    Print { path: String },
    /// Wait for `seconds`, select an image, and report how that went.
    Sleep { seconds: u64 },
    /// Leave: the loop has ended, in the phase that its state shows.
    Exit,
}

/// An [`Action`] as mathematical values.
pub enum ActionView {
    Invoke { command: Seq<char>, args: Seq<Seq<char>> },
    Print { path: Seq<char> },
    Sleep { seconds: nat },
    Exit,
}

impl View for Action {
    type V = ActionView;

    open spec fn view(&self) -> ActionView {
        match *self {
            Action::Invoke { command, args } => ActionView::Invoke {
                command: command@,
                args: args.deep_view(),
            },
            Action::Print { path } => ActionView::Print { path: path@ },
            Action::Sleep { seconds } => ActionView::Sleep { seconds: seconds as nat },
            Action::Exit => ActionView::Exit,
        }
    }
}

/// The state in which every loop starts: healthy, with no failure counted.
pub open spec fn initial() -> LoopModel {
    LoopModel { phase: Phase::Running, errors: 0 }
}

/// The failure counter after an invocation: back to zero when it went well,
/// one more when it did not.
pub open spec fn next_errors(errors: nat, outcome: Invocation) -> nat {
    if outcome.succeeded() {
        0
    } else {
        errors + 1
    }
}

/// The state after an invocation, and what follows it.
///
/// A loop that rotates once ends here whatever happened. Otherwise the loop
/// gives up as soon as the counter has reached the limit, and else sleeps: for
/// the short interval while failures are counted, for the long one when none
/// is.
pub open spec fn after_invocation(config: RunConfigView, errors: nat, outcome: Invocation) -> (
    LoopModel,
    ActionView,
) {
    let errors = next_errors(errors, outcome);
    if config.rotate_once {
        (LoopModel { phase: Phase::RotatedOnce, errors }, ActionView::Exit)
    } else if errors >= config.max_retries {
        (LoopModel { phase: Phase::FatalAbort(Fatal::TooManyErrors), errors }, ActionView::Exit)
    } else if errors > 0 {
        (LoopModel { phase: Phase::Backoff, errors }, ActionView::Sleep { seconds: config.retry_backoff })
    } else {
        (LoopModel { phase: Phase::Running, errors }, ActionView::Sleep { seconds: config.sleep_interval })
    }
}

/// One step of the loop: the state that follows `state` on `event`, and the
/// action that the caller is asked for.
///
/// A loop that has ended stays as it is and answers `Exit`. A failed
/// selection ends the loop at once, whatever the counter holds. A selected
/// path is printed, which ends the loop, or handed to the command after the
/// configured arguments. The result of an invocation is judged by
/// [`after_invocation`].
pub open spec fn step(config: RunConfigView, state: LoopModel, event: EventView) -> (
    LoopModel,
    ActionView,
) {
    if state.phase.is_terminal() {
        (state, ActionView::Exit)
    } else {
        match event {
            EventView::SelectionFailed(error) => (
                LoopModel { phase: Phase::FatalAbort(Fatal::Selection(error)), errors: state.errors },
                ActionView::Exit,
            ),
            EventView::Selected(path) => if config.print_only {
                (LoopModel { phase: Phase::Success, errors: state.errors }, ActionView::Print { path })
            } else {
                (
                    state,
                    ActionView::Invoke {
                        command: config.command,
                        args: config.command_args.push(path),
                    },
                )
            },
            EventView::Invoked(outcome) => after_invocation(config, state.errors, outcome),
        }
    }
}

/// What holds of every state that a loop with this configuration can be in.
///
/// While the loop runs the counter is below the limit: zero when healthy,
/// positive when backing off. The counter never passes the limit, except that
/// a first failure is counted even where the limit is zero.
pub open spec fn consistent(config: RunConfigView, state: LoopModel) -> bool {
    &&& state.phase is Running ==> state.errors == 0
    &&& state.phase is Backoff ==> 0 < state.errors < config.max_retries
    &&& state.phase == Phase::FatalAbort(Fatal::TooManyErrors) ==> state.errors >= config.max_retries
    &&& state.errors <= config.max_retries || state.errors <= 1
}

/// A loop together with the configuration that it runs under.
pub struct WorkLoop {
    config: RunConfig,
    state: LoopState,
}

/// A [`WorkLoop`] as mathematical values.
pub struct WorkLoopView {
    pub config: RunConfigView,
    pub state: LoopModel,
}

impl View for WorkLoop {
    type V = WorkLoopView;

    closed spec fn view(&self) -> WorkLoopView {
        WorkLoopView { config: self.config@, state: self.state@ }
    }
}

impl WorkLoop {
    #[verifier::type_invariant]
    spec fn well_formed(self) -> bool {
        consistent(self.config@, self.state@)
    }

    /// A loop in its initial state.
    pub fn new(config: RunConfig) -> (work: WorkLoop)
        ensures
            work@.config == config@,
            work@.state == initial(),
    {
        WorkLoop {
            config,
            state: LoopState { phase: Phase::Running, consecutive_error_count: 0 },
        }
    }

    /// The configuration of the loop.
    pub fn config(&self) -> (config: &RunConfig)
        ensures
            config@ == self@.config,
    {
        &self.config
    }

    /// The current state, which is always consistent with the configuration.
    pub fn state(&self) -> (state: LoopState)
        ensures
            state@ == self@.state,
            consistent(self@.config, state@),
    {
        proof {
            use_type_invariant(self);
        }
        self.state
    }

    /// Whether the loop has ended.
    pub fn is_finished(&self) -> (finished: bool)
        ensures
            finished == self@.state.phase.is_terminal(),
    {
        match self.state.phase {
            Phase::Running => false,
            Phase::Backoff => false,
            _ => true,
        }
    }

    /// The command line for one image: the configured arguments, then the path.
    fn invocation_args(&self, path: String) -> (args: Vec<String>)
        ensures
            args.deep_view() == self@.config.command_args.push(path@),
    {
        let mut args: Vec<String> = Vec::new();
        let mut i: usize = 0;
        while i < self.config.command_args.len()
            invariant
                i <= self.config.command_args.len(),
                args.len() == i,
                forall|j: int| 0 <= j < i ==> args[j]@ == self.config.command_args[j]@,
            decreases self.config.command_args.len() - i,
        {
            args.push(self.config.command_args[i].clone());
            i += 1;
        }
        args.push(path);
        args
    }

    /// Takes one step: updates the state for `event` and returns what to do
    /// next, both as [`step`] defines them. The configuration stays.
    pub fn step(&mut self, event: Event) -> (action: Action)
        ensures
            final(self)@.config == old(self)@.config,
            (final(self)@.state, action@) == step(old(self)@.config, old(self)@.state, event@),
    {
        proof {
            use_type_invariant(&*self);
        }
        if self.is_finished() {
            return Action::Exit;
        }
        match event {
            Event::SelectionFailed(error) => {
                self.state = LoopState {
                    phase: Phase::FatalAbort(Fatal::Selection(error)),
                    consecutive_error_count: self.state.consecutive_error_count,
                };
                Action::Exit
            },
            Event::Selected(path) => {
                if self.config.print_only {
                    self.state = LoopState {
                        phase: Phase::Success,
                        consecutive_error_count: self.state.consecutive_error_count,
                    };
                    Action::Print { path }
                } else {
                    let args = self.invocation_args(path);
                    Action::Invoke { command: self.config.command.clone(), args }
                }
            },
            Event::Invoked(outcome) => {
                let errors: usize = if outcome.succeeded() {
                    0
                } else {
                    self.state.consecutive_error_count + 1
                };
                if self.config.rotate_once {
                    self.state = LoopState { phase: Phase::RotatedOnce, consecutive_error_count: errors };
                    Action::Exit
                } else if errors >= self.config.max_retries {
                    self.state = LoopState {
                        phase: Phase::FatalAbort(Fatal::TooManyErrors),
                        consecutive_error_count: errors,
                    };
                    Action::Exit
                } else if errors > 0 {
                    self.state = LoopState { phase: Phase::Backoff, consecutive_error_count: errors };
                    Action::Sleep { seconds: self.config.retry_backoff }
                } else {
                    self.state = LoopState { phase: Phase::Running, consecutive_error_count: errors };
                    Action::Sleep { seconds: self.config.sleep_interval }
                }
            },
        }
    }
}

} // verus!
