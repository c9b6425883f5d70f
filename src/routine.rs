use vstd::prelude::*;

verus! {

/// One step of a routine. Positions are in thousandths of a degree.
#[derive(Debug, PartialEq, Eq)]
pub enum Command {
    /// Move a servo; `duration` is carried but not used by the move.
    MoveServo { servo_name: String, position: i32, duration: u64 },
    /// Play an audio file.
    PlayAudio { file: String },
    /// Hold the routine for `duration` milliseconds.
    Pause { duration: u64 },
}

impl Clone for Command {
    fn clone(&self) -> (r: Self)
        ensures
            r == *self,
    {
        match self {
            Command::MoveServo { servo_name, position, duration } => Command::MoveServo {
                servo_name: servo_name.clone(),
                position: *position,
                duration: *duration,
            },
            Command::PlayAudio { file } => Command::PlayAudio { file: file.clone() },
            Command::Pause { duration } => Command::Pause { duration: *duration },
        }
    }
}

/// What the runner of a routine does next.
#[derive(Debug, PartialEq, Eq)]
pub enum RoutineAction {
    /// Start the command as a detached unit of work and go on at once,
    /// without waiting for it or for its result.
    Dispatch(Command),
    /// Wait this many milliseconds before asking for the next action.
    Wait(u64),
    /// The routine is over.
    Complete,
}

/// The action that a command of a routine asks for: moves and playbacks are
/// dispatched, a pause holds the routine.
pub open spec fn action_for(c: Command) -> RoutineAction {
    match c {
        Command::Pause { duration } => RoutineAction::Wait(duration),
        _ => RoutineAction::Dispatch(c),
    }
}

impl Command {
    /// The action that this command asks of the runner of a routine.
    pub fn execute(&self) -> (r: RoutineAction)
        ensures
            r == action_for(*self),
    {
        match self {
            Command::Pause { duration } => RoutineAction::Wait(*duration),
            _ => RoutineAction::Dispatch(self.clone()),
        }
    }
}

/// Where a routine run stands.
#[derive(Debug, Clone, Copy, PartialEq, Eq)]
pub enum RoutineState {
    Idle,
    Running,
    Completed,
}

/// A run of a routine: it walks the commands in order and hands out one
/// action at a time. Its runner performs each action before asking for the
/// next, so a pause has fully elapsed before the command after it is
/// dispatched, and nothing else orders the commands.
pub struct RoutineManager {
    commands: Vec<Command>,
    next: usize,
    state: RoutineState,
}

impl RoutineManager {
    /// The routine's commands.
    pub closed spec fn spec_commands(&self) -> Seq<Command> {
        self.commands@
    }

    /// How many commands have been handed out.
    pub closed spec fn position(&self) -> nat {
        self.next as nat
    }

    /// Where the run stands.
    pub closed spec fn spec_state(&self) -> RoutineState {
        self.state
    }

    #[verifier::type_invariant]
    spec fn inv(&self) -> bool {
        &&& self.next <= self.commands@.len()
        &&& (self.state == RoutineState::Idle ==> self.next == 0)
    }

    /// A run of `commands` that has not started.
    pub fn new(commands: Vec<Command>) -> (r: RoutineManager)
        ensures
            r.spec_commands() == commands@,
            r.position() == 0,
            r.spec_state() == RoutineState::Idle,
    {
        RoutineManager { commands, next: 0, state: RoutineState::Idle }
    }

    /// Where the run stands.
    pub fn state(&self) -> (r: RoutineState)
        ensures
            r == self.spec_state(),
    {
        self.state
    }

    /// The next action of the run: the action of the next command, or
    /// `Complete` once every command has been handed out.
    pub fn next_action(&mut self) -> (r: RoutineAction)
        ensures
            final(self).spec_commands() == old(self).spec_commands(),
            old(self).position() < old(self).spec_commands().len() ==> {
                &&& r == action_for(old(self).spec_commands()[old(self).position() as int])
                &&& final(self).position() == old(self).position() + 1
                &&& final(self).spec_state() == RoutineState::Running
            },
            old(self).position() >= old(self).spec_commands().len() ==> {
                &&& r == RoutineAction::Complete
                &&& final(self).position() == old(self).position()
                &&& final(self).spec_state() == RoutineState::Completed
            },
    {
        proof {
            use_type_invariant(&*self);
        }
        if self.next < self.commands.len() {
            let action = self.commands[self.next].execute();
            self.state = RoutineState::Running;
            self.next = self.next + 1;
            action
        } else {
            self.state = RoutineState::Completed;
            RoutineAction::Complete
        }
    }
}

} // verus!
